//! The workflow engine's typed actions: the per-action parameter and
//! result records, the builders that read them out of a step's raw
//! parameters, and the per-action preflight that runs before the
//! safety gate is ever consulted.

use vstd::prelude::*;

use crate::device::{
    disk_index_by_id, disk_index_by_mount, disk_id_of_device_path, disk_id_from_device_path,
    disk_mounts_at_nocase, disk_mounts_at_nocase_exec, find_disk_by_id, find_disk_by_mount,
    norm_unix_mount, norm_windows_mount, normalize_mount_for_unix, normalize_mount_path,
    DeviceGraph, Disk,
};
use crate::errors::{ErrorKind, ForgeError};
use crate::preflight::{
    check_disk_target, check_staging_fs, ensure_boot_files, ensure_unix_boot_files,
    fat32_max_file_check, first_mount, first_mount_exec, free_space_check, fs_for_mount,
    listing_has, listing_has_efi_entry, listing_has_exec, partition_with_mount,
    staging_fs_supported, total_bytes, total_size_sat, unix_boot_files_ok, FileEntry,
    FAT32_MAX_FILE,
};
use crate::report::ReportPaths;
use crate::text::{eq_ignore_case, str_eq, str_eq_ignore_case, str_trim, trimmed};
use crate::workflow::{bool_param_or, opt_str_matches, str_param, u64_param, ParamMap};

verus! {

/// A filesystem a staging volume can be formatted with.
#[derive(Clone, Copy, Debug, PartialEq, Eq, Structural)]
pub enum FileSystem {
    Fat32,
    Ntfs,
    ExFat,
}

impl FileSystem {
    /// The label the platform formatter expects.
    pub fn as_str(&self) -> (r: &'static str)
        ensures
            *self is Fat32 ==> r@ == "FAT32"@,
            *self is Ntfs ==> r@ == "NTFS"@,
            *self is ExFat ==> r@ == "exFAT"@,
    {
        match self {
            FileSystem::Fat32 => "FAT32",
            FileSystem::Ntfs => "NTFS",
            FileSystem::ExFat => "exFAT",
        }
    }
}

/// Parse a filesystem name, trimming and ignoring case.
///
/// `Some` exactly for `fat32`, `ntfs` and `exfat`.
pub fn parse_filesystem(value: &str) -> (r: Option<FileSystem>)
    ensures
        r == Some(FileSystem::Fat32) <==> eq_ignore_case(trimmed(value@), "fat32"@),
        r == Some(FileSystem::Ntfs) <==> !eq_ignore_case(trimmed(value@), "fat32"@)
            && eq_ignore_case(trimmed(value@), "ntfs"@),
        r == Some(FileSystem::ExFat) <==> !eq_ignore_case(trimmed(value@), "fat32"@)
            && !eq_ignore_case(trimmed(value@), "ntfs"@) && eq_ignore_case(
            trimmed(value@),
            "exfat"@,
        ),
{
    let t = str_trim(value);
    if str_eq_ignore_case(t.as_str(), "fat32") {
        Some(FileSystem::Fat32)
    } else if str_eq_ignore_case(t.as_str(), "ntfs") {
        Some(FileSystem::Ntfs)
    } else if str_eq_ignore_case(t.as_str(), "exfat") {
        Some(FileSystem::ExFat)
    } else {
        None
    }
}

/// Parse a filesystem name or fail with a `Precondition`.
pub fn parse_filesystem_value(value: &str) -> (r: Result<FileSystem, ForgeError>)
    ensures
        r is Ok <==> (eq_ignore_case(trimmed(value@), "fat32"@) || eq_ignore_case(
            trimmed(value@),
            "ntfs"@,
        ) || eq_ignore_case(trimmed(value@), "exfat"@)),
        r matches Err(e) ==> e.kind == ErrorKind::Precondition,
{
    match parse_filesystem(value) {
        Some(fs) => Ok(fs),
        None => {
            let mut msg = "unsupported filesystem ".to_owned();
            msg.append(value);
            Err(ForgeError { kind: ErrorKind::Precondition, message: msg })
        },
    }
}

/// Everything a Windows installer-USB step needs.
#[derive(Clone, Debug)]
pub struct WindowsInstallerUsbParams {
    pub target_disk_id: String,
    pub source_path: String,
    pub target_mount: Option<String>,
    pub report_base: String,
    pub force: bool,
    pub confirmation_token: Option<String>,
    pub dry_run: bool,
    pub repartition: bool,
    pub format: bool,
    pub filesystem: FileSystem,
    pub label: Option<String>,
    pub driver_source: Option<String>,
    pub driver_target: Option<String>,
    pub hash_manifest: bool,
}

/// What a Windows installer-USB step produced.
#[derive(Clone, Debug)]
pub struct WindowsInstallerUsbResult {
    pub report: ReportPaths,
    pub target_mount: String,
    pub copied_files: usize,
    pub copied_bytes: u64,
    pub driver_files: usize,
    pub driver_bytes: u64,
    pub dry_run: bool,
}

/// Everything a Linux or macOS installer-USB step needs.
#[derive(Clone, Debug)]
pub struct UnixInstallerUsbParams {
    pub source_path: String,
    pub target_mount: String,
    pub report_base: String,
    pub force: bool,
    pub confirmation_token: Option<String>,
    pub dry_run: bool,
    pub hash_manifest: bool,
    pub format_device: Option<String>,
    pub format_size_bytes: Option<u64>,
    pub format_label: Option<String>,
}

/// What a Unix installer-USB step produced.
#[derive(Clone, Debug)]
pub struct UnixInstallerUsbResult {
    pub report: ReportPaths,
    pub target_mount: String,
    pub copied_files: usize,
    pub copied_bytes: u64,
    pub dry_run: bool,
}

/// Everything a raw image-write step needs.
#[derive(Clone, Debug)]
pub struct UnixWriteImageParams {
    pub source_image: String,
    pub target_device: String,
    pub report_base: String,
    pub force: bool,
    pub confirmation_token: Option<String>,
    pub dry_run: bool,
    pub verify: bool,
    pub chunk_size: u64,
}

/// What a raw image-write step produced.
#[derive(Clone, Debug)]
pub struct UnixWriteImageResult {
    pub report: ReportPaths,
    pub bytes_written: u64,
    pub sha256: String,
    pub verify_ok: Option<bool>,
    pub dry_run: bool,
}

/// Everything a macOS installer-media step needs.
#[derive(Clone, Debug)]
pub struct MacosInstallerUsbParams {
    pub source_path: String,
    pub target_device: String,
    pub report_base: String,
    pub volume_name: String,
    pub macos_version: Option<String>,
    pub filesystem: Option<String>,
    pub force: bool,
    pub confirmation_token: Option<String>,
    pub dry_run: bool,
}

/// What a macOS installer-media step produced.
#[derive(Clone, Debug)]
pub struct MacosInstallerUsbResult {
    pub report: ReportPaths,
    pub mode: String,
    pub target_volume: String,
    pub dry_run: bool,
}

/// Everything a boot-prep step needs.
#[derive(Clone, Debug)]
pub struct UnixBootPrepParams {
    pub source_path: String,
    pub target_mount: String,
    pub report_base: String,
    pub force: bool,
    pub confirmation_token: Option<String>,
    pub dry_run: bool,
    pub hash_manifest: bool,
}

/// What a boot-prep step produced.
#[derive(Clone, Debug)]
pub struct UnixBootPrepResult {
    pub report: ReportPaths,
    pub copied_files: usize,
    pub copied_bytes: u64,
    pub dry_run: bool,
}

/// Everything a bootloader-staging step needs.
#[derive(Clone, Debug)]
pub struct BootloaderStageParams {
    pub source_path: String,
    pub target_mount: String,
    pub target_subdir: Option<String>,
    pub report_base: String,
    pub force: bool,
    pub confirmation_token: Option<String>,
    pub dry_run: bool,
    pub hash_manifest: bool,
}

/// What a bootloader-staging step produced.
#[derive(Clone, Debug)]
pub struct BootloaderStageResult {
    pub report: ReportPaths,
    pub copied_files: usize,
    pub copied_bytes: u64,
    pub dry_run: bool,
}

/// Everything a WIM apply step needs.
#[derive(Clone, Debug)]
pub struct WindowsApplyImageParams {
    pub source_path: String,
    pub image_index: u32,
    pub target_dir: String,
    pub report_base: String,
    pub force: bool,
    pub confirmation_token: Option<String>,
    pub dry_run: bool,
    pub verify: bool,
}

/// What a WIM apply step produced.
#[derive(Clone, Debug)]
pub struct WindowsApplyImageResult {
    pub report: ReportPaths,
    pub target_dir: String,
    pub file_count: usize,
    pub total_bytes: u64,
    pub dry_run: bool,
}

/// Everything a disk-hash report step needs.
#[derive(Clone, Debug)]
pub struct DiskHashReportParams {
    pub disk_id: String,
    pub chunk_size: u64,
    pub max_chunks: Option<u64>,
    pub report_base: String,
}

/// What a disk-hash report step produced.
#[derive(Clone, Debug)]
pub struct DiskHashReportResult {
    pub report: ReportPaths,
    pub disk_id: String,
    pub chunk_count: usize,
}

/// The report base a step uses: its own `report_base` parameter, or the
/// run's default.
fn report_base_of(params: &ParamMap, default_report: &str) -> (r: String)
    ensures
        r@ == (match str_param(params.entries@, "report_base"@) {
            Some(s) => s,
            None => default_report@,
        }),
{
    match params.optional_string("report_base") {
        Some(s) => s,
        None => default_report.to_owned(),
    }
}

/// Build Windows installer-USB parameters from a step's raw mapping.
///
/// Succeeds exactly when `target_disk_id` and `source_path` are present
/// as strings and any `filesystem` given parses; booleans default as the
/// engine documents (`dry_run` on, everything else off).
pub fn build_usb_params(params: &ParamMap, default_report: &str) -> (r: Result<
    WindowsInstallerUsbParams,
    ForgeError,
>)
    ensures
        r is Ok <==> str_param(params.entries@, "target_disk_id"@) is Some && str_param(
            params.entries@,
            "source_path"@,
        ) is Some && (match str_param(params.entries@, "filesystem"@) {
            Some(fsv) => eq_ignore_case(trimmed(fsv), "fat32"@) || eq_ignore_case(
                trimmed(fsv),
                "ntfs"@,
            ) || eq_ignore_case(trimmed(fsv), "exfat"@),
            None => true,
        }),
        r matches Ok(p) ==> {
            &&& Some(p.target_disk_id@) == str_param(params.entries@, "target_disk_id"@)
            &&& Some(p.source_path@) == str_param(params.entries@, "source_path"@)
            &&& (match (p.target_mount, str_param(params.entries@, "target_mount"@)) {
                (Some(a), Some(b)) => a@ == b,
                (None, None) => true,
                _ => false,
            })
            &&& p.force == bool_param_or(params.entries@, "force"@, false)
            &&& p.dry_run == bool_param_or(params.entries@, "dry_run"@, true)
            &&& p.repartition == bool_param_or(params.entries@, "repartition"@, false)
            &&& p.format == bool_param_or(params.entries@, "format"@, false)
            &&& p.hash_manifest == bool_param_or(params.entries@, "hash_manifest"@, false)
            &&& (str_param(params.entries@, "filesystem"@) is None ==> p.filesystem
                == FileSystem::Fat32)
            &&& opt_str_matches(
                p.confirmation_token,
                str_param(params.entries@, "confirmation_token"@),
            )
            &&& opt_str_matches(p.label, str_param(params.entries@, "label"@))
            &&& opt_str_matches(p.driver_source, str_param(params.entries@, "driver_source"@))
            &&& opt_str_matches(p.driver_target, str_param(params.entries@, "driver_target"@))
            &&& p.report_base@ == (match str_param(params.entries@, "report_base"@) {
                Some(s) => s,
                None => default_report@,
            })
        },
        r matches Err(e) ==> e.kind == ErrorKind::Precondition,
{
    let target_disk_id = match params.require_string("target_disk_id") {
        Ok(v) => v,
        Err(e) => {
            return Err(e);
        },
    };
    let source_path = match params.require_string("source_path") {
        Ok(v) => v,
        Err(e) => {
            return Err(e);
        },
    };
    let filesystem = match params.optional_string("filesystem") {
        Some(v) => {
            match parse_filesystem_value(v.as_str()) {
                Ok(fs) => fs,
                Err(e) => {
                    return Err(e);
                },
            }
        },
        None => {
            proof {
                reveal_strlit("fat32");
            }
            FileSystem::Fat32
        },
    };
    Ok(WindowsInstallerUsbParams {
        target_disk_id,
        source_path,
        target_mount: params.optional_string("target_mount"),
        report_base: report_base_of(params, default_report),
        force: params.optional_bool("force", false),
        confirmation_token: params.optional_string("confirmation_token"),
        dry_run: params.optional_bool("dry_run", true),
        repartition: params.optional_bool("repartition", false),
        format: params.optional_bool("format", false),
        filesystem,
        label: params.optional_string("label"),
        driver_source: params.optional_string("driver_source"),
        driver_target: params.optional_string("driver_target"),
        hash_manifest: params.optional_bool("hash_manifest", false),
    })
}

/// Build Unix installer-USB parameters from a step's raw mapping.
///
/// Succeeds exactly when `source_path` and `target_mount` are present as
/// strings.
pub fn build_unix_usb_params(params: &ParamMap, default_report: &str) -> (r: Result<
    UnixInstallerUsbParams,
    ForgeError,
>)
    ensures
        r is Ok <==> str_param(params.entries@, "source_path"@) is Some && str_param(
            params.entries@,
            "target_mount"@,
        ) is Some,
        r matches Ok(p) ==> {
            &&& Some(p.source_path@) == str_param(params.entries@, "source_path"@)
            &&& Some(p.target_mount@) == str_param(params.entries@, "target_mount"@)
            &&& p.force == bool_param_or(params.entries@, "force"@, false)
            &&& p.dry_run == bool_param_or(params.entries@, "dry_run"@, true)
            &&& p.hash_manifest == bool_param_or(params.entries@, "hash_manifest"@, false)
            &&& p.format_size_bytes == u64_param(params.entries@, "format_size_bytes"@)
            &&& opt_str_matches(
                p.confirmation_token,
                str_param(params.entries@, "confirmation_token"@),
            )
            &&& opt_str_matches(p.format_device, str_param(params.entries@, "format_device"@))
            &&& opt_str_matches(p.format_label, str_param(params.entries@, "format_label"@))
            &&& p.report_base@ == (match str_param(params.entries@, "report_base"@) {
                Some(s) => s,
                None => default_report@,
            })
        },
        r matches Err(e) ==> e.kind == ErrorKind::Precondition,
{
    let source_path = match params.require_string("source_path") {
        Ok(v) => v,
        Err(e) => {
            return Err(e);
        },
    };
    let target_mount = match params.require_string("target_mount") {
        Ok(v) => v,
        Err(e) => {
            return Err(e);
        },
    };
    Ok(UnixInstallerUsbParams {
        source_path,
        target_mount,
        report_base: report_base_of(params, default_report),
        force: params.optional_bool("force", false),
        confirmation_token: params.optional_string("confirmation_token"),
        dry_run: params.optional_bool("dry_run", true),
        hash_manifest: params.optional_bool("hash_manifest", false),
        format_device: params.optional_string("format_device"),
        format_size_bytes: params.optional_u64("format_size_bytes"),
        format_label: params.optional_string("format_label"),
    })
}

/// Build raw image-write parameters from a step's raw mapping.
///
/// Succeeds exactly when `source_image` and `target_device` are present
/// as strings; the chunk size defaults to 8 MiB.
pub fn build_unix_write_params(params: &ParamMap, default_report: &str) -> (r: Result<
    UnixWriteImageParams,
    ForgeError,
>)
    ensures
        r is Ok <==> str_param(params.entries@, "source_image"@) is Some && str_param(
            params.entries@,
            "target_device"@,
        ) is Some,
        r matches Ok(p) ==> {
            &&& Some(p.source_image@) == str_param(params.entries@, "source_image"@)
            &&& Some(p.target_device@) == str_param(params.entries@, "target_device"@)
            &&& p.force == bool_param_or(params.entries@, "force"@, false)
            &&& p.dry_run == bool_param_or(params.entries@, "dry_run"@, true)
            &&& p.verify == bool_param_or(params.entries@, "verify"@, false)
            &&& p.chunk_size == (match u64_param(params.entries@, "chunk_size"@) {
                Some(v) => v,
                None => 8388608u64,
            })
            &&& opt_str_matches(
                p.confirmation_token,
                str_param(params.entries@, "confirmation_token"@),
            )
            &&& p.report_base@ == (match str_param(params.entries@, "report_base"@) {
                Some(s) => s,
                None => default_report@,
            })
        },
        r matches Err(e) ==> e.kind == ErrorKind::Precondition,
{
    let source_image = match params.require_string("source_image") {
        Ok(v) => v,
        Err(e) => {
            return Err(e);
        },
    };
    let target_device = match params.require_string("target_device") {
        Ok(v) => v,
        Err(e) => {
            return Err(e);
        },
    };
    let chunk_size = match params.optional_u64("chunk_size") {
        Some(v) => v,
        None => 8388608,
    };
    Ok(UnixWriteImageParams {
        source_image,
        target_device,
        report_base: report_base_of(params, default_report),
        force: params.optional_bool("force", false),
        confirmation_token: params.optional_string("confirmation_token"),
        dry_run: params.optional_bool("dry_run", true),
        verify: params.optional_bool("verify", false),
        chunk_size,
    })
}

/// Build boot-prep parameters from a step's raw mapping.
///
/// Succeeds exactly when `source_path` and `target_mount` are present as
/// strings.
pub fn build_unix_boot_params(params: &ParamMap, default_report: &str) -> (r: Result<
    UnixBootPrepParams,
    ForgeError,
>)
    ensures
        r is Ok <==> str_param(params.entries@, "source_path"@) is Some && str_param(
            params.entries@,
            "target_mount"@,
        ) is Some,
        r matches Ok(p) ==> {
            &&& Some(p.source_path@) == str_param(params.entries@, "source_path"@)
            &&& Some(p.target_mount@) == str_param(params.entries@, "target_mount"@)
            &&& p.force == bool_param_or(params.entries@, "force"@, false)
            &&& p.dry_run == bool_param_or(params.entries@, "dry_run"@, true)
            &&& p.hash_manifest == bool_param_or(params.entries@, "hash_manifest"@, false)
            &&& opt_str_matches(
                p.confirmation_token,
                str_param(params.entries@, "confirmation_token"@),
            )
            &&& p.report_base@ == (match str_param(params.entries@, "report_base"@) {
                Some(s) => s,
                None => default_report@,
            })
        },
        r matches Err(e) ==> e.kind == ErrorKind::Precondition,
{
    let source_path = match params.require_string("source_path") {
        Ok(v) => v,
        Err(e) => {
            return Err(e);
        },
    };
    let target_mount = match params.require_string("target_mount") {
        Ok(v) => v,
        Err(e) => {
            return Err(e);
        },
    };
    Ok(UnixBootPrepParams {
        source_path,
        target_mount,
        report_base: report_base_of(params, default_report),
        force: params.optional_bool("force", false),
        confirmation_token: params.optional_string("confirmation_token"),
        dry_run: params.optional_bool("dry_run", true),
        hash_manifest: params.optional_bool("hash_manifest", false),
    })
}

/// Build macOS installer-media parameters from a step's raw mapping.
///
/// Succeeds exactly when `source_path` and `target_device` are present
/// as strings; the volume name defaults to `PHOENIX-MACOS`.
pub fn build_macos_installer_params(params: &ParamMap, default_report: &str) -> (r: Result<
    MacosInstallerUsbParams,
    ForgeError,
>)
    ensures
        r is Ok <==> str_param(params.entries@, "source_path"@) is Some && str_param(
            params.entries@,
            "target_device"@,
        ) is Some,
        r matches Ok(p) ==> {
            &&& Some(p.source_path@) == str_param(params.entries@, "source_path"@)
            &&& Some(p.target_device@) == str_param(params.entries@, "target_device"@)
            &&& p.volume_name@ == (match str_param(params.entries@, "volume_name"@) {
                Some(v) => v,
                None => "PHOENIX-MACOS"@,
            })
            &&& p.force == bool_param_or(params.entries@, "force"@, false)
            &&& p.dry_run == bool_param_or(params.entries@, "dry_run"@, true)
            &&& opt_str_matches(
                p.confirmation_token,
                str_param(params.entries@, "confirmation_token"@),
            )
            &&& opt_str_matches(p.macos_version, str_param(params.entries@, "macos_version"@))
            &&& opt_str_matches(p.filesystem, str_param(params.entries@, "filesystem"@))
            &&& p.report_base@ == (match str_param(params.entries@, "report_base"@) {
                Some(s) => s,
                None => default_report@,
            })
        },
        r matches Err(e) ==> e.kind == ErrorKind::Precondition,
{
    let source_path = match params.require_string("source_path") {
        Ok(v) => v,
        Err(e) => {
            return Err(e);
        },
    };
    let target_device = match params.require_string("target_device") {
        Ok(v) => v,
        Err(e) => {
            return Err(e);
        },
    };
    let volume_name = match params.optional_string("volume_name") {
        Some(v) => v,
        None => "PHOENIX-MACOS".to_owned(),
    };
    Ok(MacosInstallerUsbParams {
        source_path,
        target_device,
        report_base: report_base_of(params, default_report),
        volume_name,
        macos_version: params.optional_string("macos_version"),
        filesystem: params.optional_string("filesystem"),
        force: params.optional_bool("force", false),
        confirmation_token: params.optional_string("confirmation_token"),
        dry_run: params.optional_bool("dry_run", true),
    })
}

/// Build bootloader-staging parameters from a step's raw mapping.
///
/// Succeeds exactly when `source_path` and `target_mount` are present as
/// strings.
pub fn build_stage_bootloader_params(params: &ParamMap, default_report: &str) -> (r: Result<
    BootloaderStageParams,
    ForgeError,
>)
    ensures
        r is Ok <==> str_param(params.entries@, "source_path"@) is Some && str_param(
            params.entries@,
            "target_mount"@,
        ) is Some,
        r matches Ok(p) ==> {
            &&& Some(p.source_path@) == str_param(params.entries@, "source_path"@)
            &&& Some(p.target_mount@) == str_param(params.entries@, "target_mount"@)
            &&& p.force == bool_param_or(params.entries@, "force"@, false)
            &&& p.dry_run == bool_param_or(params.entries@, "dry_run"@, true)
            &&& p.hash_manifest == bool_param_or(params.entries@, "hash_manifest"@, false)
            &&& opt_str_matches(
                p.confirmation_token,
                str_param(params.entries@, "confirmation_token"@),
            )
            &&& opt_str_matches(p.target_subdir, str_param(params.entries@, "target_subdir"@))
            &&& p.report_base@ == (match str_param(params.entries@, "report_base"@) {
                Some(s) => s,
                None => default_report@,
            })
        },
        r matches Err(e) ==> e.kind == ErrorKind::Precondition,
{
    let source_path = match params.require_string("source_path") {
        Ok(v) => v,
        Err(e) => {
            return Err(e);
        },
    };
    let target_mount = match params.require_string("target_mount") {
        Ok(v) => v,
        Err(e) => {
            return Err(e);
        },
    };
    Ok(BootloaderStageParams {
        source_path,
        target_mount,
        target_subdir: params.optional_string("target_subdir"),
        report_base: report_base_of(params, default_report),
        force: params.optional_bool("force", false),
        confirmation_token: params.optional_string("confirmation_token"),
        dry_run: params.optional_bool("dry_run", true),
        hash_manifest: params.optional_bool("hash_manifest", false),
    })
}

/// Build WIM apply parameters from a step's raw mapping.
///
/// Succeeds exactly when `source_path` and `target_dir` are present as
/// strings and `image_index` as an integer.
pub fn build_apply_params(params: &ParamMap, default_report: &str) -> (r: Result<
    WindowsApplyImageParams,
    ForgeError,
>)
    ensures
        r is Ok <==> str_param(params.entries@, "source_path"@) is Some && str_param(
            params.entries@,
            "target_dir"@,
        ) is Some && u64_param(params.entries@, "image_index"@) is Some,
        r matches Ok(p) ==> {
            &&& Some(p.source_path@) == str_param(params.entries@, "source_path"@)
            &&& Some(p.target_dir@) == str_param(params.entries@, "target_dir"@)
            &&& p.force == bool_param_or(params.entries@, "force"@, false)
            &&& p.dry_run == bool_param_or(params.entries@, "dry_run"@, true)
            &&& p.verify == bool_param_or(params.entries@, "verify"@, false)
            &&& Some(p.image_index as u64) == (match u64_param(params.entries@, "image_index"@) {
                Some(w) => Some((w as u32) as u64),
                None => None::<u64>,
            })
            &&& opt_str_matches(
                p.confirmation_token,
                str_param(params.entries@, "confirmation_token"@),
            )
            &&& p.report_base@ == (match str_param(params.entries@, "report_base"@) {
                Some(s) => s,
                None => default_report@,
            })
        },
        r matches Err(e) ==> e.kind == ErrorKind::Precondition,
{
    let source_path = match params.require_string("source_path") {
        Ok(v) => v,
        Err(e) => {
            return Err(e);
        },
    };
    let target_dir = match params.require_string("target_dir") {
        Ok(v) => v,
        Err(e) => {
            return Err(e);
        },
    };
    let image_index = match params.require_u32("image_index") {
        Ok(v) => v,
        Err(e) => {
            return Err(e);
        },
    };
    Ok(WindowsApplyImageParams {
        source_path,
        image_index,
        target_dir,
        report_base: report_base_of(params, default_report),
        force: params.optional_bool("force", false),
        confirmation_token: params.optional_string("confirmation_token"),
        dry_run: params.optional_bool("dry_run", true),
        verify: params.optional_bool("verify", false),
    })
}

/// Build report-verify parameters: the bundle path and an optional key.
///
/// Succeeds exactly when `path` is present as a string.
pub fn build_verify_params(params: &ParamMap) -> (r: Result<(String, Option<String>), ForgeError>)
    ensures
        r is Ok <==> str_param(params.entries@, "path"@) is Some,
        r matches Ok(p) ==> Some(p.0@) == str_param(params.entries@, "path"@) && (match (
            p.1,
            str_param(params.entries@, "signing_key"@),
        ) {
            (Some(a), Some(b)) => a@ == b,
            (None, None) => true,
            _ => false,
        }),
        r matches Err(e) ==> e.kind == ErrorKind::Precondition,
{
    let path = match params.require_string("path") {
        Ok(v) => v,
        Err(e) => {
            return Err(e);
        },
    };
    Ok((path, params.optional_string("signing_key")))
}

/// Build disk-hash parameters from a step's raw mapping.
///
/// Succeeds exactly when `disk_id` is present as a string; the chunk
/// size defaults to 8 MiB.
pub fn build_hash_params(params: &ParamMap, default_report: &str) -> (r: Result<
    DiskHashReportParams,
    ForgeError,
>)
    ensures
        r is Ok <==> str_param(params.entries@, "disk_id"@) is Some,
        r matches Ok(p) ==> {
            &&& Some(p.disk_id@) == str_param(params.entries@, "disk_id"@)
            &&& p.chunk_size == (match u64_param(params.entries@, "chunk_size"@) {
                Some(v) => v,
                None => 8388608u64,
            })
            &&& p.max_chunks == u64_param(params.entries@, "max_chunks"@)
            &&& p.report_base@ == (match str_param(params.entries@, "report_base"@) {
                Some(s) => s,
                None => default_report@,
            })
        },
        r matches Err(e) ==> e.kind == ErrorKind::Precondition,
{
    let disk_id = match params.require_string("disk_id") {
        Ok(v) => v,
        Err(e) => {
            return Err(e);
        },
    };
    let chunk_size = match params.optional_u64("chunk_size") {
        Some(v) => v,
        None => 8388608,
    };
    Ok(DiskHashReportParams {
        disk_id,
        chunk_size,
        max_chunks: params.optional_u64("max_chunks"),
        report_base: report_base_of(params, default_report),
    })
}

/// Look up a disk by id or fail with `disk not found: <id>`.
pub fn require_disk(graph: &DeviceGraph, disk_id: &str) -> (r: Result<usize, ForgeError>)
    ensures
        r is Ok <==> disk_index_by_id(graph.disks@, disk_id@) is Some,
        r matches Ok(i) ==> disk_index_by_id(graph.disks@, disk_id@) == Some(i as int) && i
            < graph.disks@.len(),
        r matches Err(e) ==> e.kind == ErrorKind::Precondition && e.message@
            == "disk not found: "@ + disk_id@,
{
    proof {
        crate::device::lemma_disk_index_by_id_bound(graph.disks@, disk_id@);
    }
    match find_disk_by_id(graph, disk_id) {
        Some(i) => Ok(i),
        None => {
            let mut msg = "disk not found: ".to_owned();
            msg.append(disk_id);
            Err(ForgeError { kind: ErrorKind::Precondition, message: msg })
        },
    }
}

/// Look up the disk that carries a mount, or fail.
pub fn require_disk_by_mount(graph: &DeviceGraph, mount: &str) -> (r: Result<usize, ForgeError>)
    ensures
        r is Ok <==> disk_index_by_mount(graph.disks@, norm_unix_mount(mount@)) is Some,
        r matches Ok(i) ==> disk_index_by_mount(graph.disks@, norm_unix_mount(mount@)) == Some(
            i as int,
        ) && i < graph.disks@.len(),
        r matches Err(e) ==> e.kind == ErrorKind::Precondition && e.message@
            == "target mount not found in device graph"@,
{
    proof {
        crate::device::lemma_disk_index_by_mount_bound(graph.disks@, norm_unix_mount(mount@));
    }
    match find_disk_by_mount(graph, mount) {
        Some(i) => Ok(i),
        None => Err(
            ForgeError::new(ErrorKind::Precondition, "target mount not found in device graph"),
        ),
    }
}

/// Resolve the target device path of an image write to a disk of the
/// graph, or fail: an unparsable path is `unsupported device path`, an
/// unknown id `disk not found: <id>`.
pub fn require_disk_by_device_path(graph: &DeviceGraph, device_path: &str) -> (r: Result<
    usize,
    ForgeError,
>)
    ensures
        r is Ok <==> (disk_id_of_device_path(device_path@) matches Some(id) && disk_index_by_id(
            graph.disks@,
            id,
        ) is Some),
        r matches Ok(i) ==> disk_index_by_id(
            graph.disks@,
            disk_id_of_device_path(device_path@)->0,
        ) == Some(i as int) && i < graph.disks@.len(),
        r matches Err(e) ==> e.kind == ErrorKind::Precondition,
{
    let disk_id = match disk_id_from_device_path(device_path) {
        Some(id) => id,
        None => {
            return Err(ForgeError::new(ErrorKind::Precondition, "unsupported device path"));
        },
    };
    require_disk(graph, disk_id.as_str())
}

/// What the Windows installer-USB preflight resolved.
#[derive(Clone, Debug)]
pub struct WindowsUsbPreflight {
    pub disk_index: usize,
    pub target_mount: String,
    pub fs: Option<String>,
    pub total_bytes: u64,
}

/// The mount a Windows installer-USB step stages onto: the given one,
/// Windows-normalized, or the disk's first mount point, or empty.
pub open spec fn resolved_windows_mount(disk: Disk, target_mount: Option<String>) -> Seq<char> {
    match target_mount {
        Some(m) => norm_windows_mount(m@),
        None => (match first_mount(disk.partitions@) {
            Some(m) => norm_windows_mount(m),
            None => Seq::empty(),
        }),
    }
}

/// Every check a Windows installer-USB step makes before the safety gate.
pub open spec fn windows_usb_preflight_ok(
    graph: DeviceGraph,
    params: WindowsInstallerUsbParams,
    files: Seq<FileEntry>,
) -> bool {
    match disk_index_by_id(graph.disks@, params.target_disk_id@) {
        None => false,
        Some(d) => {
            let disk = graph.disks@[d];
            let mount = resolved_windows_mount(disk, params.target_mount);
            &&& !disk.is_system_disk
            &&& disk.removable
            &&& (params.target_mount is Some ==> disk_mounts_at_nocase(disk, mount))
            &&& (match partition_with_mount(disk.partitions@, mount) {
                Some(p) => (match disk.partitions@[p].fs {
                    Some(fs) => staging_fs_supported(fs@),
                    None => true,
                }),
                None => true,
            })
            &&& listing_has(files, "setup.exe"@)
            &&& listing_has(files, "sources/boot.wim"@)
            &&& listing_has_efi_entry(files)
            &&& (params.filesystem is Fat32 ==> forall|i: int|
                0 <= i < files.len() ==> (#[trigger] files[i]).size <= FAT32_MAX_FILE)
        },
    }
}

/// Run every Windows installer-USB check that precedes the safety gate:
/// the target disk exists, is removable and not the system disk; the
/// staging mount belongs to it and carries a filesystem installers can
/// boot from; the source holds `setup.exe`, `sources/boot.wim` and an
/// EFI entry; and on FAT32 no file exceeds the 4 GiB ceiling.
///
/// Succeeds exactly when all of that holds, with the resolved mount,
/// its filesystem label and the source's total size. Every refusal is a
/// `Precondition`; a source without `sources/boot.wim` that passes the
/// disk, mount and `setup.exe` checks is refused with exactly
/// `missing sources/boot.wim in installer source` — the safety gate and its
/// token play no part here.
#[verifier::rlimit(80)]
pub fn preflight_windows_installer_usb(
    graph: &DeviceGraph,
    params: &WindowsInstallerUsbParams,
    files: &Vec<FileEntry>,
) -> (r: Result<WindowsUsbPreflight, ForgeError>)
    ensures
        r is Ok <==> windows_usb_preflight_ok(*graph, *params, files@),
        r matches Ok(w) ==> {
            let d = disk_index_by_id(graph.disks@, params.target_disk_id@)->0;
            &&& Some(w.disk_index as int) == disk_index_by_id(graph.disks@, params.target_disk_id@)
            &&& w.target_mount@ == resolved_windows_mount(graph.disks@[d], params.target_mount)
            &&& w.total_bytes == total_size_sat(files@)
        },
        r matches Err(e) ==> e.kind == ErrorKind::Precondition,
        (disk_index_by_id(graph.disks@, params.target_disk_id@) matches Some(d) && {
            let disk = graph.disks@[d];
            let mount = resolved_windows_mount(disk, params.target_mount);
            &&& !disk.is_system_disk
            &&& disk.removable
            &&& (params.target_mount is Some ==> disk_mounts_at_nocase(disk, mount))
            &&& (match partition_with_mount(disk.partitions@, mount) {
                Some(p) => (match disk.partitions@[p].fs {
                    Some(fs) => staging_fs_supported(fs@),
                    None => true,
                }),
                None => true,
            })
            &&& listing_has(files@, "setup.exe"@)
            &&& !listing_has(files@, "sources/boot.wim"@)
        }) ==> (r matches Err(e) && e.message@
            == "missing sources/boot.wim in installer source"@),
{
    let disk_index = match require_disk(graph, params.target_disk_id.as_str()) {
        Ok(i) => i,
        Err(e) => {
            return Err(e);
        },
    };
    let disk = &graph.disks[disk_index];
    match check_disk_target(disk) {
        Ok(()) => {},
        Err(e) => {
            return Err(e);
        },
    }

    let target_mount: String = match &params.target_mount {
        Some(m) => {
            let normalized = normalize_mount_path(m.as_str());
            if !disk_mounts_at_nocase_exec(disk, normalized.as_str()) {
                let mut msg = "target_mount ".to_owned();
                msg.append(normalized.as_str());
                msg.append(" does not belong to disk ");
                msg.append(disk.id.as_str());
                return Err(ForgeError { kind: ErrorKind::Precondition, message: msg });
            }
            normalized
        },
        None => {
            match first_mount_exec(&disk.partitions) {
                Some(m) => normalize_mount_path(m.as_str()),
                None => String::new(),
            }
        },
    };

    match fs_for_mount(&disk.partitions, target_mount.as_str()) {
        Some(Some(fs)) => {
            match check_staging_fs(fs.as_str()) {
                Ok(()) => {},
                Err(e) => {
                    return Err(e);
                },
            }
            let total = total_bytes(files);
            match finish_windows_preflight(params, files) {
                Ok(()) => Ok(WindowsUsbPreflight {
                    disk_index,
                    target_mount,
                    fs: Some(fs),
                    total_bytes: total,
                }),
                Err(e) => Err(e),
            }
        },
        Some(None) => {
            let total = total_bytes(files);
            match finish_windows_preflight(params, files) {
                Ok(()) => Ok(WindowsUsbPreflight {
                    disk_index,
                    target_mount,
                    fs: None,
                    total_bytes: total,
                }),
                Err(e) => Err(e),
            }
        },
        None => {
            let total = total_bytes(files);
            match finish_windows_preflight(params, files) {
                Ok(()) => Ok(WindowsUsbPreflight {
                    disk_index,
                    target_mount,
                    fs: None,
                    total_bytes: total,
                }),
                Err(e) => Err(e),
            }
        },
    }
}

/// The source-side half of the Windows preflight: `setup.exe`, boot
/// files, and the FAT32 ceiling.
fn finish_windows_preflight(params: &WindowsInstallerUsbParams, files: &Vec<FileEntry>) -> (r:
    Result<(), ForgeError>)
    ensures
        r is Ok <==> listing_has(files@, "setup.exe"@) && listing_has(files@, "sources/boot.wim"@)
            && listing_has_efi_entry(files@) && (params.filesystem is Fat32 ==> forall|i: int|
            0 <= i < files@.len() ==> (#[trigger] files@[i]).size <= FAT32_MAX_FILE),
        listing_has(files@, "setup.exe"@) && !listing_has(files@, "sources/boot.wim"@) ==> (
        r matches Err(e) && e.message@ == "missing sources/boot.wim in installer source"@),
        r matches Err(e) ==> e.kind == ErrorKind::Precondition,
{
    if !listing_has_exec(files, "setup.exe") {
        return Err(ForgeError::new(
            ErrorKind::Precondition,
            "source missing setup.exe (provide extracted Windows installer files)",
        ));
    }
    match ensure_boot_files(files) {
        Ok(()) => {},
        Err(e) => {
            return Err(e);
        },
    }
    let is_fat32 = match params.filesystem {
        FileSystem::Fat32 => true,
        _ => false,
    };
    if is_fat32 {
        match fat32_max_file_check(files) {
            Ok(()) => {},
            Err(e) => {
                return Err(e);
            },
        }
    }
    Ok(())
}

/// What the Unix installer-USB preflight resolved.
#[derive(Clone, Debug)]
pub struct UnixUsbPreflight {
    pub disk_index: usize,
    pub target_mount: String,
    pub total_bytes: u64,
}

/// Every check a Unix installer-USB step makes before the safety gate.
pub open spec fn unix_usb_preflight_ok(
    graph: DeviceGraph,
    target_mount: Seq<char>,
    files: Seq<FileEntry>,
    host_os: Seq<char>,
    free_bytes: Option<u64>,
) -> bool {
    match disk_index_by_mount(graph.disks@, norm_unix_mount(target_mount)) {
        None => false,
        Some(d) => {
            let disk = graph.disks@[d];
            &&& !disk.is_system_disk
            &&& disk.removable
            &&& unix_boot_files_ok(files, host_os)
            &&& (match free_bytes {
                Some(free) => free >= total_size_sat(files),
                None => true,
            })
        },
    }
}

/// Run every Unix installer-USB check that precedes the safety gate:
/// the normalized target mount belongs to a removable, non-system disk,
/// the source carries the boot files `host_os` requires, and it fits in
/// the free space when that is known.
///
/// Succeeds exactly when all of that holds. Every refusal is a
/// `Precondition`; the safety gate plays no part here.
pub fn preflight_unix_installer_usb(
    graph: &DeviceGraph,
    target_mount: &str,
    files: &Vec<FileEntry>,
    host_os: &str,
    free_bytes: Option<u64>,
) -> (r: Result<UnixUsbPreflight, ForgeError>)
    ensures
        r is Ok <==> unix_usb_preflight_ok(*graph, target_mount@, files@, host_os@, free_bytes),
        r matches Ok(w) ==> {
            &&& Some(w.disk_index as int) == disk_index_by_mount(
                graph.disks@,
                norm_unix_mount(target_mount@),
            )
            &&& w.target_mount@ == norm_unix_mount(target_mount@)
            &&& w.total_bytes == total_size_sat(files@)
        },
        r matches Err(e) ==> e.kind == ErrorKind::Precondition,
{
    let normalized = normalize_mount_for_unix(target_mount);
    let disk_index = match require_disk_by_mount(graph, target_mount) {
        Ok(i) => i,
        Err(e) => {
            return Err(e);
        },
    };
    match check_disk_target(&graph.disks[disk_index]) {
        Ok(()) => {},
        Err(e) => {
            return Err(e);
        },
    }
    match ensure_unix_boot_files(files, host_os) {
        Ok(()) => {},
        Err(e) => {
            return Err(e);
        },
    }
    let total = total_bytes(files);
    match free_space_check(free_bytes, total) {
        Ok(()) => {},
        Err(e) => {
            return Err(e);
        },
    }
    Ok(UnixUsbPreflight { disk_index, target_mount: normalized, total_bytes: total })
}

/// Every check an image-write step makes before the safety gate.
pub open spec fn write_image_preflight_ok(graph: DeviceGraph, target_device: Seq<char>) -> bool {
    match disk_id_of_device_path(target_device) {
        None => false,
        Some(id) => (match disk_index_by_id(graph.disks@, id) {
            None => false,
            Some(d) => !graph.disks@[d].is_system_disk && graph.disks@[d].removable,
        }),
    }
}

/// Run every image-write check that precedes the safety gate: the
/// device path resolves to a disk of the graph that is removable and
/// not the system disk.
///
/// Succeeds exactly when that holds, with the disk's index. Every
/// refusal is a `Precondition`; the safety gate plays no part here.
pub fn preflight_unix_write_image(graph: &DeviceGraph, target_device: &str) -> (r: Result<
    usize,
    ForgeError,
>)
    ensures
        r is Ok <==> write_image_preflight_ok(*graph, target_device@),
        r matches Ok(i) ==> disk_index_by_id(
            graph.disks@,
            disk_id_of_device_path(target_device@)->0,
        ) == Some(i as int),
        r matches Err(e) ==> e.kind == ErrorKind::Precondition,
{
    let disk_index = match require_disk_by_device_path(graph, target_device) {
        Ok(i) => i,
        Err(e) => {
            return Err(e);
        },
    };
    match check_disk_target(&graph.disks[disk_index]) {
        Ok(()) => {},
        Err(e) => {
            return Err(e);
        },
    }
    Ok(disk_index)
}

/// Every check a bootloader-staging step makes against the graph.
pub open spec fn stage_target_ok(graph: DeviceGraph, target_mount: Seq<char>) -> bool {
    match disk_index_by_mount(graph.disks@, norm_unix_mount(target_mount)) {
        None => false,
        Some(d) => !graph.disks@[d].is_system_disk && graph.disks@[d].removable,
    }
}

/// Check a staging target mount: it must belong to a removable,
/// non-system disk of the graph.
///
/// Succeeds exactly when that holds, with the disk's index and the
/// normalized mount. Every refusal is a `Precondition`.
pub fn preflight_stage_target(graph: &DeviceGraph, target_mount: &str) -> (r: Result<
    (usize, String),
    ForgeError,
>)
    ensures
        r is Ok <==> stage_target_ok(*graph, target_mount@),
        r matches Ok(p) ==> disk_index_by_mount(graph.disks@, norm_unix_mount(target_mount@))
            == Some(p.0 as int) && p.1@ == norm_unix_mount(target_mount@),
        r matches Err(e) ==> e.kind == ErrorKind::Precondition,
{
    let normalized = normalize_mount_for_unix(target_mount);
    let disk_index = match require_disk_by_mount(graph, target_mount) {
        Ok(i) => i,
        Err(e) => {
            return Err(e);
        },
    };
    match check_disk_target(&graph.disks[disk_index]) {
        Ok(()) => {},
        Err(e) => {
            return Err(e);
        },
    }
    Ok((disk_index, normalized))
}

/// One boot-prep source subtree: its path relative to the source root,
/// and whether it is a directory.
#[derive(Clone, Debug)]
pub struct BootCandidate {
    pub relative: String,
    pub is_dir: bool,
}

/// The boot-prep candidates for `host_os` that exist in the source:
/// for Linux the `EFI/BOOT`, `boot/grub` and `isolinux` directories, in
/// that order; for macOS the `System/Library/CoreServices/boot.efi`
/// file then the `EFI/BOOT` directory; nothing for any other host.
pub fn boot_prep_candidates(
    host_os: &str,
    dirs_present: &Vec<String>,
    files_present: &Vec<String>,
) -> (r: Vec<BootCandidate>)
    ensures
        host_os@ == "linux"@ ==> {
            let d1 = crate::bootload::listed(dirs_present@, "EFI/BOOT"@);
            let d2 = crate::bootload::listed(dirs_present@, "boot/grub"@);
            let d3 = crate::bootload::listed(dirs_present@, "isolinux"@);
            &&& r@.len() == (if d1 { 1int } else { 0int }) + (if d2 { 1int } else { 0int }) + (
            if d3 { 1int } else { 0int })
            &&& (d1 ==> r@[0].relative@ == "EFI/BOOT"@ && r@[0].is_dir)
            &&& (d2 ==> {
                let i = if d1 { 1int } else { 0int };
                r@[i].relative@ == "boot/grub"@ && r@[i].is_dir
            })
            &&& (d3 ==> {
                let i = (if d1 { 1int } else { 0int }) + (if d2 { 1int } else { 0int });
                r@[i].relative@ == "isolinux"@ && r@[i].is_dir
            })
        },
        host_os@ != "linux"@ && host_os@ == "macos"@ ==> {
            let f1 = crate::bootload::listed(
                files_present@,
                "System/Library/CoreServices/boot.efi"@,
            );
            let d1 = crate::bootload::listed(dirs_present@, "EFI/BOOT"@);
            &&& r@.len() == (if f1 { 1int } else { 0int }) + (if d1 { 1int } else { 0int })
            &&& (f1 ==> r@[0].relative@ == "System/Library/CoreServices/boot.efi"@
                && !r@[0].is_dir)
            &&& (d1 ==> {
                let i = if f1 { 1int } else { 0int };
                r@[i].relative@ == "EFI/BOOT"@ && r@[i].is_dir
            })
        },
        host_os@ != "linux"@ && host_os@ != "macos"@ ==> r@.len() == 0,
{
    let mut out: Vec<BootCandidate> = Vec::new();
    if str_eq(host_os, "linux") {
        if contains_exact(dirs_present, "EFI/BOOT") {
            out.push(BootCandidate { relative: "EFI/BOOT".to_owned(), is_dir: true });
        }
        if contains_exact(dirs_present, "boot/grub") {
            out.push(BootCandidate { relative: "boot/grub".to_owned(), is_dir: true });
        }
        if contains_exact(dirs_present, "isolinux") {
            out.push(BootCandidate { relative: "isolinux".to_owned(), is_dir: true });
        }
    } else if str_eq(host_os, "macos") {
        if contains_exact(files_present, "System/Library/CoreServices/boot.efi") {
            out.push(
                BootCandidate {
                    relative: "System/Library/CoreServices/boot.efi".to_owned(),
                    is_dir: false,
                },
            );
        }
        if contains_exact(dirs_present, "EFI/BOOT") {
            out.push(BootCandidate { relative: "EFI/BOOT".to_owned(), is_dir: true });
        }
    }
    out
}

/// Whether `present` lists exactly `path`.
fn contains_exact(present: &Vec<String>, path: &str) -> (r: bool)
    ensures
        r == crate::bootload::listed(present@, path@),
{
    let mut i: usize = 0;
    while i < present.len()
        invariant
            i <= present@.len(),
            forall|j: int| 0 <= j < i ==> (#[trigger] present@[j])@ != path@,
        decreases present@.len() - i,
    {
        if str_eq(present[i].as_str(), path) {
            proof {
                assert((present@[i as int])@ == path@);
            }
            return true;
        }
        i = i + 1;
    }
    false
}

/// A WIM apply step packaged with its parameters, for callers that
/// dispatch workflows as values.
pub struct WindowsApplyImageWorkflow {
    pub params: WindowsApplyImageParams,
}

impl WindowsApplyImageWorkflow {
    /// Wrap the parameters of one WIM apply step.
    pub fn new(params: WindowsApplyImageParams) -> (r: WindowsApplyImageWorkflow)
        ensures
            r.params == params,
    {
        WindowsApplyImageWorkflow { params }
    }

    /// The step's parameters.
    pub fn params(&self) -> (r: &WindowsApplyImageParams)
        ensures
            *r == self.params,
    {
        &self.params
    }
}

} // verus!
