//! Per-action preflight: every check that must pass before a destructive
//! step may even consult the safety gate. The checks are over the device
//! graph, the step's parameters, and the source's file listing; walking
//! directories and probing mounts is the caller's part.

use vstd::prelude::*;

use crate::device::{
    norm_windows_mount, normalize_mount_path, DeviceGraph, Disk, Partition,
};
use crate::errors::{ErrorKind, ForgeError};
use crate::jsonout::push_dec;
use crate::text::{eq_ignore_case, lower_code, str_eq_ignore_case};

verus! {

/// One file of a source listing: its path relative to the source root,
/// and its size.
#[derive(Clone, Debug)]
pub struct FileEntry {
    pub relative_path: String,
    pub size: u64,
}

/// A path character folded for comparison: backslashes count as slashes,
/// ASCII case is ignored.
pub open spec fn norm_path_code(c: char) -> u32 {
    if c == '\\' {
        '/' as u32
    } else {
        lower_code(c)
    }
}

/// The folded codes of a whole path.
pub open spec fn norm_path(s: Seq<char>) -> Seq<u32> {
    s.map_values(|c: char| norm_path_code(c))
}

/// The folded code of one character.
fn norm_path_code_exec(c: char) -> (r: u32)
    ensures
        r == norm_path_code(c),
{
    if c == '\\' {
        '/' as u32
    } else {
        crate::text::char_lower_code(c)
    }
}

/// Two paths are equal under folding.
pub fn norm_path_eq(s: &str, pat: &str) -> (r: bool)
    ensures
        r == (norm_path(s@) == norm_path(pat@)),
{
    let s_len = s.unicode_len();
    let p_len = pat.unicode_len();
    if s_len != p_len {
        assert(norm_path(s@).len() != norm_path(pat@).len());
        return false;
    }
    let mut i: usize = 0;
    while i < s_len
        invariant
            s_len == s@.len(),
            p_len == pat@.len(),
            s_len == p_len,
            i <= s_len,
            forall|j: int| 0 <= j < i ==> norm_path_code(s@[j]) == norm_path_code(pat@[j]),
        decreases s_len - i,
    {
        if norm_path_code_exec(s.get_char(i)) != norm_path_code_exec(pat.get_char(i)) {
            assert(norm_path(s@)[i as int] != norm_path(pat@)[i as int]);
            return false;
        }
        i = i + 1;
    }
    assert(norm_path(s@) =~= norm_path(pat@));
    true
}

/// `s` starts with `prefix` under folding.
pub fn norm_path_starts_with(s: &str, prefix: &str) -> (r: bool)
    ensures
        r == (s@.len() >= prefix@.len() && norm_path(s@.subrange(0, prefix@.len() as int))
            == norm_path(prefix@)),
{
    let s_len = s.unicode_len();
    let p_len = prefix.unicode_len();
    if s_len < p_len {
        return false;
    }
    let ghost head = s@.subrange(0, prefix@.len() as int);
    let mut i: usize = 0;
    while i < p_len
        invariant
            s_len == s@.len(),
            p_len == prefix@.len(),
            p_len <= s_len,
            i <= p_len,
            head == s@.subrange(0, prefix@.len() as int),
            forall|j: int| 0 <= j < i ==> norm_path_code(head[j]) == norm_path_code(prefix@[j]),
        decreases p_len - i,
    {
        if norm_path_code_exec(s.get_char(i)) != norm_path_code_exec(prefix.get_char(i)) {
            assert(head[i as int] == s@[i as int]);
            assert(norm_path(head)[i as int] != norm_path(prefix@)[i as int]);
            return false;
        }
        assert(head[i as int] == s@[i as int]);
        i = i + 1;
    }
    assert(norm_path(head) =~= norm_path(prefix@));
    true
}

/// `s` ends with `suffix` under folding.
pub fn norm_path_ends_with(s: &str, suffix: &str) -> (r: bool)
    ensures
        r == (s@.len() >= suffix@.len() && norm_path(
            s@.subrange(s@.len() - suffix@.len(), s@.len() as int),
        ) == norm_path(suffix@)),
{
    let s_len = s.unicode_len();
    let x_len = suffix.unicode_len();
    if s_len < x_len {
        return false;
    }
    let start = s_len - x_len;
    let ghost tail = s@.subrange(s@.len() - suffix@.len(), s@.len() as int);
    let mut i: usize = 0;
    while i < x_len
        invariant
            s_len == s@.len(),
            x_len == suffix@.len(),
            x_len <= s_len,
            start == s_len - x_len,
            i <= x_len,
            tail == s@.subrange(s@.len() - suffix@.len(), s@.len() as int),
            forall|j: int| 0 <= j < i ==> norm_path_code(tail[j]) == norm_path_code(suffix@[j]),
        decreases x_len - i,
    {
        if norm_path_code_exec(s.get_char(start + i)) != norm_path_code_exec(suffix.get_char(i)) {
            assert(tail[i as int] == s@[start + i]);
            assert(norm_path(tail)[i as int] != norm_path(suffix@)[i as int]);
            return false;
        }
        assert(tail[i as int] == s@[start + i]);
        i = i + 1;
    }
    assert(norm_path(tail) =~= norm_path(suffix@));
    true
}

/// The listing holds a file whose folded path equals `pat`'s.
pub open spec fn listing_has(files: Seq<FileEntry>, pat: Seq<char>) -> bool {
    exists|i: int|
        0 <= i < files.len() && norm_path((#[trigger] files[i]).relative_path@) == norm_path(pat)
}

/// The listing holds a file whose folded path starts with `prefix`'s.
pub open spec fn listing_has_prefixed(files: Seq<FileEntry>, prefix: Seq<char>) -> bool {
    exists|i: int|
        0 <= i < files.len() && {
            let s = (#[trigger] files[i]).relative_path@;
            s.len() >= prefix.len() && norm_path(s.subrange(0, prefix.len() as int)) == norm_path(
                prefix,
            )
        }
}

/// The listing holds an EFI boot entry: a file under `efi/boot/` ending
/// in `.efi`, folding case and separators.
pub open spec fn listing_has_efi_entry(files: Seq<FileEntry>) -> bool {
    exists|i: int|
        0 <= i < files.len() && {
            let s = (#[trigger] files[i]).relative_path@;
            &&& s.len() >= "efi/boot/"@.len()
            &&& norm_path(s.subrange(0, "efi/boot/"@.len() as int)) == norm_path("efi/boot/"@)
            &&& s.len() >= ".efi"@.len()
            &&& norm_path(s.subrange(s.len() - ".efi"@.len(), s.len() as int)) == norm_path(
                ".efi"@,
            )
        }
}

/// Whether the listing holds `pat`, folded.
pub fn listing_has_exec(files: &Vec<FileEntry>, pat: &str) -> (r: bool)
    ensures
        r == listing_has(files@, pat@),
{
    let mut i: usize = 0;
    while i < files.len()
        invariant
            i <= files@.len(),
            forall|j: int|
                0 <= j < i ==> norm_path((#[trigger] files@[j]).relative_path@) != norm_path(pat@),
        decreases files@.len() - i,
    {
        if norm_path_eq(files[i].relative_path.as_str(), pat) {
            return true;
        }
        i = i + 1;
    }
    false
}

/// Whether the listing holds a path with the folded prefix `prefix`.
pub fn listing_has_prefixed_exec(files: &Vec<FileEntry>, prefix: &str) -> (r: bool)
    ensures
        r == listing_has_prefixed(files@, prefix@),
{
    let mut i: usize = 0;
    while i < files.len()
        invariant
            i <= files@.len(),
            forall|j: int|
                0 <= j < i ==> !{
                    let s = (#[trigger] files@[j]).relative_path@;
                    s.len() >= prefix@.len() && norm_path(s.subrange(0, prefix@.len() as int))
                        == norm_path(prefix@)
                },
        decreases files@.len() - i,
    {
        if norm_path_starts_with(files[i].relative_path.as_str(), prefix) {
            return true;
        }
        i = i + 1;
    }
    false
}

/// Whether the listing holds an `efi/boot/*.efi` entry.
pub fn listing_has_efi_entry_exec(files: &Vec<FileEntry>) -> (r: bool)
    ensures
        r == listing_has_efi_entry(files@),
{
    let mut i: usize = 0;
    while i < files.len()
        invariant
            i <= files@.len(),
            forall|j: int|
                0 <= j < i ==> !{
                    let s = (#[trigger] files@[j]).relative_path@;
                    &&& s.len() >= "efi/boot/"@.len()
                    &&& norm_path(s.subrange(0, "efi/boot/"@.len() as int)) == norm_path(
                        "efi/boot/"@,
                    )
                    &&& s.len() >= ".efi"@.len()
                    &&& norm_path(s.subrange(s.len() - ".efi"@.len(), s.len() as int)) == norm_path(
                        ".efi"@,
                    )
                },
        decreases files@.len() - i,
    {
        let rel = files[i].relative_path.as_str();
        if norm_path_starts_with(rel, "efi/boot/") && norm_path_ends_with(rel, ".efi") {
            return true;
        }
        i = i + 1;
    }
    false
}

/// Check that a Windows installer source carries `sources/boot.wim` and
/// an EFI boot entry.
///
/// The boot image is checked first: a source without it fails with
/// exactly `missing sources/boot.wim in installer source`, whatever else
/// is there. Both errors are `Precondition`s.
pub fn ensure_boot_files(files: &Vec<FileEntry>) -> (r: Result<(), ForgeError>)
    ensures
        r is Ok <==> listing_has(files@, "sources/boot.wim"@) && listing_has_efi_entry(files@),
        !listing_has(files@, "sources/boot.wim"@) ==> (r matches Err(e) && e.kind
            == ErrorKind::Precondition && e.message@
            == "missing sources/boot.wim in installer source"@),
        r matches Err(e) ==> e.kind == ErrorKind::Precondition,
{
    if !listing_has_exec(files, "sources/boot.wim") {
        return Err(ForgeError::new(
            ErrorKind::Precondition,
            "missing sources/boot.wim in installer source",
        ));
    }
    if !listing_has_efi_entry_exec(files) {
        return Err(ForgeError::new(
            ErrorKind::Precondition,
            "missing EFI bootloader in installer source",
        ));
    }
    Ok(())
}

/// What a Linux or macOS installer source must carry to boot.
pub open spec fn unix_boot_files_ok(files: Seq<FileEntry>, os: Seq<char>) -> bool {
    if os == "linux"@ {
        ||| listing_has_prefixed(files, "efi/boot/"@)
        ||| listing_has_prefixed(files, "boot/grub"@)
        ||| listing_has_prefixed(files, "isolinux/"@)
    } else if os == "macos"@ {
        ||| listing_has(files, "system/library/coreservices/boot.efi"@)
        ||| listing_has_prefixed(files, "efi/boot/"@)
    } else {
        true
    }
}

/// Check that a Unix installer source carries boot files for `os`.
///
/// Succeeds exactly when the OS-specific candidates are present; the
/// error is a `Precondition`.
pub fn ensure_unix_boot_files(files: &Vec<FileEntry>, os: &str) -> (r: Result<(), ForgeError>)
    ensures
        r is Ok <==> unix_boot_files_ok(files@, os@),
        r matches Err(e) ==> e.kind == ErrorKind::Precondition,
{
    proof {
        reveal_strlit("linux");
        reveal_strlit("macos");
    }
    if crate::text::str_eq(os, "linux") {
        if listing_has_prefixed_exec(files, "efi/boot/") || listing_has_prefixed_exec(
            files,
            "boot/grub",
        ) || listing_has_prefixed_exec(files, "isolinux/") {
            Ok(())
        } else {
            Err(ForgeError::new(
                ErrorKind::Precondition,
                "linux source missing EFI/BOOT, boot/grub, or isolinux",
            ))
        }
    } else if crate::text::str_eq(os, "macos") {
        if listing_has_exec(files, "system/library/coreservices/boot.efi")
            || listing_has_prefixed_exec(files, "efi/boot/") {
            Ok(())
        } else {
            Err(ForgeError::new(
                ErrorKind::Precondition,
                "macos source missing System/Library/CoreServices/boot.efi or EFI/BOOT",
            ))
        }
    } else {
        Ok(())
    }
}

/// The largest file size of the listing, zero when it is empty.
pub fn max_file_size(files: &Vec<FileEntry>) -> (r: u64)
    ensures
        forall|i: int| 0 <= i < files@.len() ==> (#[trigger] files@[i]).size <= r,
        files@.len() == 0 ==> r == 0,
        files@.len() > 0 ==> exists|i: int| 0 <= i < files@.len() && (#[trigger] files@[i]).size
            == r,
{
    let mut max: u64 = 0;
    let mut i: usize = 0;
    while i < files.len()
        invariant
            i <= files@.len(),
            forall|j: int| 0 <= j < i ==> (#[trigger] files@[j]).size <= max,
            i == 0 ==> max == 0,
            i > 0 ==> exists|j: int| 0 <= j < i && (#[trigger] files@[j]).size == max,
        decreases files@.len() - i,
    {
        if files[i].size > max {
            max = files[i].size;
        }
        i = i + 1;
    }
    max
}

/// The sum of the listing's sizes, saturating at `u64::MAX`.
pub open spec fn total_size_sat(files: Seq<FileEntry>) -> int
    decreases files.len(),
{
    if files.len() == 0 {
        0
    } else {
        let rest = total_size_sat(files.drop_last());
        if rest + files.last().size > u64::MAX {
            u64::MAX as int
        } else {
            rest + files.last().size
        }
    }
}

/// Sum the listing's sizes, saturating.
pub fn total_bytes(files: &Vec<FileEntry>) -> (r: u64)
    ensures
        r == total_size_sat(files@),
{
    let mut sum: u64 = 0;
    let mut i: usize = 0;
    while i < files.len()
        invariant
            i <= files@.len(),
            sum == total_size_sat(files@.subrange(0, i as int)),
        decreases files@.len() - i,
    {
        let size = files[i].size;
        sum = if u64::MAX - sum < size {
            u64::MAX
        } else {
            sum + size
        };
        proof {
            let pre = files@.subrange(0, i as int + 1);
            assert(pre.drop_last() =~= files@.subrange(0, i as int));
            assert(pre.last() == files@[i as int]);
        }
        i = i + 1;
    }
    proof {
        assert(files@.subrange(0, files@.len() as int) =~= files@);
    }
    sum
}

/// The FAT32 per-file ceiling: one byte under 4 GiB.
pub const FAT32_MAX_FILE: u64 = 4294967295;

/// Refuse a FAT32 staging whose source holds a file over the ceiling.
///
/// Succeeds exactly when every file fits; the error is a `Precondition`
/// naming the largest size.
pub fn fat32_max_file_check(files: &Vec<FileEntry>) -> (r: Result<(), ForgeError>)
    ensures
        r is Ok <==> forall|i: int|
            0 <= i < files@.len() ==> (#[trigger] files@[i]).size <= FAT32_MAX_FILE,
        r matches Err(e) ==> e.kind == ErrorKind::Precondition,
{
    let max = max_file_size(files);
    if max > FAT32_MAX_FILE {
        let mut msg = "FAT32 cannot store files > 4GB (max file ".to_owned();
        push_dec(&mut msg, max);
        msg.append(" bytes). Use NTFS/exFAT.");
        return Err(ForgeError { kind: ErrorKind::Precondition, message: msg });
    }
    Ok(())
}

/// Refuse a copy that will not fit in the free space, when it is known.
///
/// Succeeds exactly when no free-space figure is known or the figure
/// covers what is required; the error is a `Precondition` naming both.
pub fn free_space_check(free_bytes: Option<u64>, required: u64) -> (r: Result<(), ForgeError>)
    ensures
        r is Ok <==> (match free_bytes {
            Some(free) => free >= required,
            None => true,
        }),
        r matches Err(e) ==> e.kind == ErrorKind::Precondition,
{
    match free_bytes {
        None => Ok(()),
        Some(free) => {
            if free < required {
                let mut msg = "insufficient free space: required ".to_owned();
                push_dec(&mut msg, required);
                msg.append(", available ");
                push_dec(&mut msg, free);
                Err(ForgeError { kind: ErrorKind::Precondition, message: msg })
            } else {
                Ok(())
            }
        },
    }
}

/// Refuse a disk that may not be a destructive target: the system disk
/// is always refused, then anything not marked removable.
///
/// Succeeds exactly when the disk is removable and not the system disk;
/// both refusals are `Precondition`s, the system disk's coming first.
pub fn check_disk_target(disk: &Disk) -> (r: Result<(), ForgeError>)
    ensures
        r is Ok <==> !disk.is_system_disk && disk.removable,
        disk.is_system_disk ==> (r matches Err(e) && e.message@
            == "refusing to target system disk: "@ + disk.id@),
        !disk.is_system_disk && !disk.removable ==> (r matches Err(e) && e.message@
            == "target disk is not marked removable: "@ + disk.id@),
        r matches Err(e) ==> e.kind == ErrorKind::Precondition,
{
    if disk.is_system_disk {
        let mut msg = "refusing to target system disk: ".to_owned();
        msg.append(disk.id.as_str());
        return Err(ForgeError { kind: ErrorKind::Precondition, message: msg });
    }
    if !disk.removable {
        let mut msg = "target disk is not marked removable: ".to_owned();
        msg.append(disk.id.as_str());
        return Err(ForgeError { kind: ErrorKind::Precondition, message: msg });
    }
    Ok(())
}

/// The first partition holding mount `m` up to case, and its filesystem.
pub open spec fn partition_with_mount(parts: Seq<Partition>, m: Seq<char>) -> Option<int>
    decreases parts.len(),
{
    if parts.len() == 0 {
        None
    } else if exists|q: int|
        0 <= q < parts[0].mount_points@.len() && eq_ignore_case(
            (#[trigger] parts[0].mount_points@[q])@,
            m,
        ) {
        Some(0int)
    } else {
        match partition_with_mount(parts.drop_first(), m) {
            Some(i) => Some(i + 1),
            None => None,
        }
    }
}

/// The filesystem label of the partition mounted at `m`, if one is.
pub fn fs_for_mount(parts: &Vec<Partition>, m: &str) -> (r: Option<Option<String>>)
    ensures
        match r {
            Some(fs) => partition_with_mount(parts@, m@) matches Some(i) && (match (
                fs,
                parts@[i].fs,
            ) {
                (Some(a), Some(b)) => a@ == b@,
                (None, None) => true,
                _ => false,
            }),
            None => partition_with_mount(parts@, m@) is None,
        },
{
    proof {
        assert(parts@.skip(0) =~= parts@);
    }
    let mut i: usize = 0;
    while i < parts.len()
        invariant
            i <= parts@.len(),
            partition_with_mount(parts@, m@) == (match partition_with_mount(
                parts@.skip(i as int),
                m@,
            ) {
                Some(k) => Some(k + i),
                None => None::<int>,
            }),
        decreases parts@.len() - i,
    {
        proof {
            let rest = parts@.skip(i as int);
            assert(rest[0] == parts@[i as int]);
            assert(rest.drop_first() =~= parts@.skip(i as int + 1));
        }
        let part = &parts[i];
        let mut q: usize = 0;
        let mut found = false;
        while q < part.mount_points.len()
            invariant
                part == parts@[i as int],
                i < parts@.len(),
                q <= part.mount_points@.len(),
                found ==> exists|qi: int|
                    0 <= qi < part.mount_points@.len() && eq_ignore_case(
                        (#[trigger] part.mount_points@[qi])@,
                        m@,
                    ),
                !found ==> forall|qi: int|
                    0 <= qi < q ==> !eq_ignore_case((#[trigger] part.mount_points@[qi])@, m@),
            decreases part.mount_points@.len() - q,
        {
            if str_eq_ignore_case(part.mount_points[q].as_str(), m) {
                proof {
                    assert(eq_ignore_case((part.mount_points@[q as int])@, m@));
                }
                found = true;
            }
            q = q + 1;
        }
        if found {
            return Some(match &part.fs {
                Some(fs) => Some(fs.clone()),
                None => None,
            });
        }
        i = i + 1;
    }
    proof {
        assert(parts@.skip(parts@.len() as int) =~= Seq::<Partition>::empty());
    }
    None
}

/// The first mount point of the first partition that has one.
pub open spec fn first_mount(parts: Seq<Partition>) -> Option<Seq<char>>
    decreases parts.len(),
{
    if parts.len() == 0 {
        None
    } else if parts[0].mount_points@.len() > 0 {
        Some(parts[0].mount_points@[0]@)
    } else {
        first_mount(parts.drop_first())
    }
}

/// Find the first mount point of any partition.
pub fn first_mount_exec(parts: &Vec<Partition>) -> (r: Option<String>)
    ensures
        match r {
            Some(m) => first_mount(parts@) == Some(m@),
            None => first_mount(parts@) is None,
        },
{
    proof {
        assert(parts@.skip(0) =~= parts@);
    }
    let mut i: usize = 0;
    while i < parts.len()
        invariant
            i <= parts@.len(),
            first_mount(parts@) == first_mount(parts@.skip(i as int)),
        decreases parts@.len() - i,
    {
        proof {
            let rest = parts@.skip(i as int);
            assert(rest[0] == parts@[i as int]);
            assert(rest.drop_first() =~= parts@.skip(i as int + 1));
        }
        if parts[i].mount_points.len() > 0 {
            return Some(parts[i].mount_points[0].clone());
        }
        i = i + 1;
    }
    proof {
        assert(parts@.skip(parts@.len() as int) =~= Seq::<Partition>::empty());
    }
    None
}

/// A filesystem label on which a Windows installer can be staged.
pub open spec fn staging_fs_supported(fs: Seq<char>) -> bool {
    ||| eq_ignore_case(fs, "fat32"@)
    ||| eq_ignore_case(fs, "ntfs"@)
    ||| eq_ignore_case(fs, "exfat"@)
}

/// Refuse staging onto a filesystem other than FAT32, NTFS or exFAT.
///
/// Succeeds exactly when the label is one of those, up to case; the
/// error is a `Precondition`.
pub fn check_staging_fs(fs: &str) -> (r: Result<(), ForgeError>)
    ensures
        r is Ok <==> staging_fs_supported(fs@),
        r matches Err(e) ==> e.kind == ErrorKind::Precondition,
{
    if str_eq_ignore_case(fs, "fat32") || str_eq_ignore_case(fs, "ntfs") || str_eq_ignore_case(
        fs,
        "exfat",
    ) {
        Ok(())
    } else {
        let mut msg = "unsupported filesystem for staging: ".to_owned();
        msg.append(fs);
        Err(ForgeError { kind: ErrorKind::Precondition, message: msg })
    }
}

} // verus!
