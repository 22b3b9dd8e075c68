use phoenix_forge::bootload::validate_bootloader_package;
use phoenix_forge::content::find_windows_image;
use phoenix_forge::device::{
    disk_id_from_device_path, extract_drive_letter, normalize_mount_for_unix,
    normalize_mount_path, parse_disk_number, split_disk_id, DeviceGraph, Disk, HostInfo,
    Partition,
};
use phoenix_forge::engine::{
    boot_prep_candidates, preflight_stage_target, preflight_unix_installer_usb,
    preflight_unix_write_image, preflight_windows_installer_usb, FileSystem,
    WindowsInstallerUsbParams,
};
use phoenix_forge::errors::ErrorKind;
use phoenix_forge::macver::{parse_macos_version, macos_target_fs, select_macos_fs};
use phoenix_forge::patcher::{patch_candidates, patch_string_array};
use phoenix_forge::preflight::{ensure_boot_files, ensure_unix_boot_files, FileEntry};
use phoenix_forge::wimmeta::{apply_size_check, extract_tag, wim_image_info_from_xml};

fn graph_with(disks: Vec<Disk>) -> DeviceGraph {
    DeviceGraph::new(
        HostInfo {
            os: "windows".to_string(),
            os_version: "10".to_string(),
            machine: "test".to_string(),
        },
        disks,
        "2024-01-01T00:00:00Z".to_string(),
    )
}

fn removable_disk(id: &str, mount: &str, fs: &str) -> Disk {
    Disk {
        id: id.to_string(),
        friendly_name: "Test USB".to_string(),
        size_bytes: 32 * 1024 * 1024 * 1024,
        is_system_disk: false,
        removable: true,
        partitions: vec![Partition {
            id: format!("{}p1", id),
            label: None,
            fs: Some(fs.to_string()),
            size_bytes: 32 * 1024 * 1024 * 1024,
            mount_points: vec![mount.to_string()],
        }],
    }
}

fn file(path: &str, size: u64) -> FileEntry {
    FileEntry {
        relative_path: path.to_string(),
        size,
    }
}

fn windows_params() -> WindowsInstallerUsbParams {
    WindowsInstallerUsbParams {
        target_disk_id: "PhysicalDrive1".to_string(),
        source_path: "/src".to_string(),
        target_mount: Some("E:".to_string()),
        report_base: ".".to_string(),
        force: false,
        confirmation_token: None,
        dry_run: true,
        repartition: false,
        format: false,
        filesystem: FileSystem::Fat32,
        label: None,
        driver_source: None,
        driver_target: None,
        hash_manifest: false,
    }
}

#[test]
fn windows_preflight_reports_missing_boot_wim_before_the_gate() {
    let graph = graph_with(vec![removable_disk("PhysicalDrive1", "E:\\", "FAT32")]);
    let files = vec![file("setup.exe", 10), file("EFI/BOOT/BOOTX64.EFI", 10)];
    // The params carry no force flag and no token: the refusal below can
    // only come from preflight, never from the safety gate.
    let err = preflight_windows_installer_usb(&graph, &windows_params(), &files).unwrap_err();
    assert_eq!(err.message(), "missing sources/boot.wim in installer source");
    assert_eq!(err.kind, ErrorKind::Precondition);
}

#[test]
fn windows_preflight_accepts_a_complete_source() {
    let graph = graph_with(vec![removable_disk("PhysicalDrive1", "E:\\", "NTFS")]);
    let files = vec![
        file("setup.exe", 10),
        file("sources/boot.wim", 400),
        file("EFI/BOOT/BOOTX64.EFI", 10),
    ];
    let ok = preflight_windows_installer_usb(&graph, &windows_params(), &files).unwrap();
    assert_eq!(ok.disk_index, 0);
    assert_eq!(ok.target_mount, "E:\\");
    assert_eq!(ok.total_bytes, 420);
}

#[test]
fn windows_preflight_refuses_system_and_fixed_disks() {
    let mut system = removable_disk("PhysicalDrive1", "E:\\", "NTFS");
    system.is_system_disk = true;
    let graph = graph_with(vec![system]);
    let files = vec![
        file("setup.exe", 10),
        file("sources/boot.wim", 400),
        file("EFI/BOOT/BOOTX64.EFI", 10),
    ];
    let err = preflight_windows_installer_usb(&graph, &windows_params(), &files).unwrap_err();
    assert_eq!(err.message(), "refusing to target system disk: PhysicalDrive1");

    let mut fixed = removable_disk("PhysicalDrive1", "E:\\", "NTFS");
    fixed.removable = false;
    let graph = graph_with(vec![fixed]);
    let err = preflight_windows_installer_usb(&graph, &windows_params(), &files).unwrap_err();
    assert_eq!(
        err.message(),
        "target disk is not marked removable: PhysicalDrive1"
    );
}

#[test]
fn windows_preflight_enforces_fat32_file_ceiling() {
    let graph = graph_with(vec![removable_disk("PhysicalDrive1", "E:\\", "FAT32")]);
    let files = vec![
        file("setup.exe", 10),
        file("sources/boot.wim", 400),
        file("EFI/BOOT/BOOTX64.EFI", 10),
        file("sources/install.wim", 5 * 1024 * 1024 * 1024),
    ];
    let err = preflight_windows_installer_usb(&graph, &windows_params(), &files).unwrap_err();
    assert!(err.message().starts_with("FAT32 cannot store files > 4GB"));

    let mut ntfs_params = windows_params();
    ntfs_params.filesystem = FileSystem::Ntfs;
    let graph = graph_with(vec![removable_disk("PhysicalDrive1", "E:\\", "NTFS")]);
    assert!(preflight_windows_installer_usb(&graph, &ntfs_params, &files).is_ok());
}

#[test]
fn windows_preflight_rejects_foreign_mounts_and_filesystems() {
    let graph = graph_with(vec![removable_disk("PhysicalDrive1", "E:\\", "NTFS")]);
    let files = vec![
        file("setup.exe", 10),
        file("sources/boot.wim", 400),
        file("EFI/BOOT/BOOTX64.EFI", 10),
    ];
    let mut wrong_mount = windows_params();
    wrong_mount.target_mount = Some("F:".to_string());
    let err = preflight_windows_installer_usb(&graph, &wrong_mount, &files).unwrap_err();
    assert_eq!(
        err.message(),
        "target_mount F:\\ does not belong to disk PhysicalDrive1"
    );

    let graph = graph_with(vec![removable_disk("PhysicalDrive1", "E:\\", "ext4")]);
    let err = preflight_windows_installer_usb(&graph, &windows_params(), &files).unwrap_err();
    assert_eq!(err.message(), "unsupported filesystem for staging: ext4");
}

#[test]
fn unix_preflight_checks_mount_boot_files_and_space() {
    let graph = graph_with(vec![removable_disk("sdb", "/mnt/usb", "vfat")]);
    let files = vec![file("EFI/BOOT/BOOTX64.EFI", 100), file("vmlinuz", 900)];
    let ok = preflight_unix_installer_usb(&graph, "/mnt/usb/", &files, "linux", Some(10_000))
        .unwrap();
    assert_eq!(ok.disk_index, 0);
    assert_eq!(ok.target_mount, "/mnt/usb");
    assert_eq!(ok.total_bytes, 1000);

    let err = preflight_unix_installer_usb(&graph, "/mnt/usb", &files, "linux", Some(10))
        .unwrap_err();
    assert_eq!(err.message(), "insufficient free space: required 1000, available 10");

    let no_boot = vec![file("vmlinuz", 900)];
    let err =
        preflight_unix_installer_usb(&graph, "/mnt/usb", &no_boot, "linux", None).unwrap_err();
    assert_eq!(err.message(), "linux source missing EFI/BOOT, boot/grub, or isolinux");

    let err = preflight_unix_installer_usb(&graph, "/mnt/elsewhere", &files, "linux", None)
        .unwrap_err();
    assert_eq!(err.message(), "target mount not found in device graph");
}

#[test]
fn write_image_preflight_resolves_device_paths() {
    let graph = graph_with(vec![removable_disk("sdb", "/mnt/usb", "vfat")]);
    assert_eq!(preflight_unix_write_image(&graph, "/dev/sdb2").unwrap(), 0);
    let err = preflight_unix_write_image(&graph, "/dev/sdz1").unwrap_err();
    assert_eq!(err.message(), "disk not found: sdz");
}

#[test]
fn stage_target_checks_the_disk() {
    let graph = graph_with(vec![removable_disk("sdb", "/mnt/usb", "vfat")]);
    let (index, mount) = preflight_stage_target(&graph, "/mnt/usb/").unwrap();
    assert_eq!(index, 0);
    assert_eq!(mount, "/mnt/usb");
}

#[test]
fn boot_file_checks_per_os() {
    let windows_src = vec![file("sources/BOOT.WIM", 1), file("efi\\boot\\grubx64.EFI", 1)];
    assert!(ensure_boot_files(&windows_src).is_ok());

    let mac_src = vec![file("System/Library/CoreServices/boot.efi", 1)];
    assert!(ensure_unix_boot_files(&mac_src, "macos").is_ok());
    assert!(ensure_unix_boot_files(&mac_src, "linux").is_err());
}

#[test]
fn bootloader_package_discovery() {
    let present = vec![
        "EFI/BOOT/BOOTX64.EFI".to_string(),
        "EFI/BOOT/BOOTAA64.EFI".to_string(),
    ];
    let package = validate_bootloader_package("/pkg", &present).unwrap();
    assert_eq!(package.root, "/pkg");
    assert_eq!(package.boot_entries.len(), 2);
    assert_eq!(package.boot_entries[0].path, "EFI/BOOT/BOOTX64.EFI");

    let none: Vec<String> = vec!["README".to_string()];
    let err = validate_bootloader_package("/pkg", &none).unwrap_err();
    assert_eq!(err.message(), "bootloader package missing EFI/BOOT/*.EFI entries");
}

#[test]
fn boot_prep_candidate_sets() {
    let dirs = vec!["EFI/BOOT".to_string(), "isolinux".to_string()];
    let files = vec!["System/Library/CoreServices/boot.efi".to_string()];
    let linux = boot_prep_candidates("linux", &dirs, &files);
    let names: Vec<&str> = linux.iter().map(|c| c.relative.as_str()).collect();
    assert_eq!(names, vec!["EFI/BOOT", "isolinux"]);
    let mac = boot_prep_candidates("macos", &dirs, &files);
    assert_eq!(mac.len(), 2);
    assert!(!mac[0].is_dir);
    assert!(boot_prep_candidates("windows", &dirs, &files).is_empty());
}

#[test]
fn device_path_helpers() {
    assert_eq!(parse_disk_number("PhysicalDrive3"), Some(3));
    assert_eq!(parse_disk_number("PhysicalDrive"), None);
    assert_eq!(parse_disk_number("Drive3"), None);
    assert_eq!(extract_drive_letter("e:\\mnt"), Some('E'));
    assert_eq!(extract_drive_letter("/mnt"), None);
    assert_eq!(disk_id_from_device_path("/dev/sdb2").as_deref(), Some("sdb"));
    assert_eq!(disk_id_from_device_path("/dev/disk2s1").as_deref(), Some("disk2"));
    assert_eq!(
        disk_id_from_device_path("/dev/nvme0n1p2").as_deref(),
        Some("nvme0n1")
    );
    assert_eq!(disk_id_from_device_path("/dev/123").as_deref(), None);
    assert_eq!(split_disk_id("disk2s1"), "disk2");
    assert_eq!(split_disk_id("sdb1"), "sdb1");
    assert_eq!(normalize_mount_for_unix("/mnt/usb///"), "/mnt/usb");
    assert_eq!(normalize_mount_for_unix("/"), "/");
    assert_eq!(normalize_mount_path("E:"), "E:\\");
    assert_eq!(normalize_mount_path("E:\\"), "E:\\");
}

#[test]
fn windows_image_lookup_order() {
    let present = vec!["install.wim".to_string(), "sources/install.esd".to_string()];
    assert_eq!(
        find_windows_image("/root", &present).unwrap(),
        "/root/sources/install.esd"
    );
    let empty: Vec<String> = vec![];
    let err = find_windows_image("/root", &empty).unwrap_err();
    assert_eq!(err.message(), "install.wim or install.esd not found in source");
}

#[test]
fn wim_metadata_extraction() {
    let xml = "<IMAGE><NAME> Pro </NAME><TOTALBYTES>12345</TOTALBYTES></IMAGE>";
    assert_eq!(extract_tag(xml, "NAME").as_deref(), Some("Pro"));
    assert_eq!(extract_tag(xml, "DESCRIPTION"), None);
    let info = wim_image_info_from_xml(2, xml);
    assert_eq!(info.index, 2);
    assert_eq!(info.name.as_deref(), Some("Pro"));
    assert_eq!(info.total_bytes, Some(12345));
}

#[test]
fn apply_size_tolerance() {
    assert!(apply_size_check(1000, None).is_ok());
    assert!(apply_size_check(995, Some(1000)).is_ok());
    let err = apply_size_check(980, Some(1000)).unwrap_err();
    assert_eq!(err.kind, ErrorKind::VerifyFailed);
    assert_eq!(err.message(), "verification failed: bytes 980 < expected 1000");
}

#[test]
fn macos_version_parsing() {
    assert_eq!(parse_macos_version("10.13.6"), Some((10, 13)));
    assert_eq!(parse_macos_version(" 11 "), Some((11, 0)));
    assert_eq!(parse_macos_version("Sierra"), Some((10, 12)));
    // "High Sierra" hits the "sierra" probe first, as the probe order has it.
    assert_eq!(parse_macos_version("High Sierra"), Some((10, 12)));
    assert_eq!(parse_macos_version("macOS Mojave"), Some((10, 14)));
    assert_eq!(parse_macos_version("big-sur"), Some((11, 0)));
    assert_eq!(parse_macos_version("mystery"), None);
    assert_eq!(select_macos_fs("10.12").as_deref(), Some("JHFS+"));
    assert_eq!(select_macos_fs("10.13").as_deref(), Some("APFS"));
    assert_eq!(select_macos_fs("13.1").as_deref(), Some("APFS"));
    assert_eq!(macos_target_fs(None, None), "APFS");
    let explicit = "JHFS+".to_string();
    assert_eq!(macos_target_fs(Some(&explicit), None), "JHFS+");
}

#[test]
fn legacy_patch_arrays_are_idempotent() {
    let mut array = vec!["MacPro5,1".to_string()];
    assert!(patch_string_array(&mut array, "iMac14,2"));
    assert_eq!(array, vec!["MacPro5,1".to_string(), "iMac14,2".to_string()]);
    let snapshot = array.clone();
    assert!(!patch_string_array(&mut array, "iMac14,2"));
    assert_eq!(array, snapshot);

    let candidates = patch_candidates("/Applications/Install.app");
    assert_eq!(candidates.len(), 3);
    assert_eq!(
        candidates[0],
        "/Applications/Install.app/Contents/SharedSupport/PlatformSupport.plist"
    );
}
