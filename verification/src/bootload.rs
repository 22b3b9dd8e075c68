//! Bootloader package validation: a staged package must carry at least
//! one `EFI/BOOT/*.EFI` entry. Probing the directory is the caller's
//! part; it hands in which of the fixed candidates exist.

use vstd::prelude::*;

use crate::errors::{ErrorKind, ForgeError};
use crate::text::str_eq;

verus! {

/// The firmware architecture a boot entry serves.
#[derive(Clone, Copy, Debug, PartialEq, Eq, Structural)]
pub enum BootArch {
    X64,
    Aarch64,
    Ia32,
    Unknown,
}

/// One discovered boot entry, by its path relative to the package root.
#[derive(Clone, Debug)]
pub struct BootEntry {
    pub path: String,
    pub arch: BootArch,
}

/// A validated bootloader package: its root and its boot entries.
#[derive(Clone, Debug)]
pub struct BootloaderPackage {
    pub root: String,
    pub boot_entries: Vec<BootEntry>,
}

/// Whether some element of `present` reads exactly `path`.
pub open spec fn listed(present: Seq<String>, path: Seq<char>) -> bool {
    exists|i: int| 0 <= i < present.len() && (#[trigger] present[i])@ == path
}

/// Whether `present` holds any of the three candidate boot entries.
pub open spec fn any_boot_entry(present: Seq<String>) -> bool {
    ||| listed(present, "EFI/BOOT/BOOTX64.EFI"@)
    ||| listed(present, "EFI/BOOT/BOOTAA64.EFI"@)
    ||| listed(present, "EFI/BOOT/BOOTIA32.EFI"@)
}

/// Whether `present` lists `path`.
fn contains_path(present: &Vec<String>, path: &str) -> (r: bool)
    ensures
        r == listed(present@, path@),
{
    let mut i: usize = 0;
    while i < present.len()
        invariant
            i <= present@.len(),
            forall|j: int| 0 <= j < i ==> (#[trigger] present@[j])@ != path@,
        decreases present@.len() - i,
    {
        if str_eq(present[i].as_str(), path) {
            proof {
                assert((present@[i as int])@ == path@);
            }
            return true;
        }
        i = i + 1;
    }
    false
}

/// Validate a bootloader package rooted at `root`, given which files
/// exist under it.
///
/// Succeeds exactly when at least one of `EFI/BOOT/BOOTX64.EFI`,
/// `BOOTAA64.EFI`, `BOOTIA32.EFI` is present, returning those entries in
/// that order with their architectures; the error otherwise is a
/// `Precondition`.
pub fn validate_bootloader_package(root: &str, present: &Vec<String>) -> (r: Result<
    BootloaderPackage,
    ForgeError,
>)
    ensures
        r is Ok <==> any_boot_entry(present@),
        r matches Ok(p) ==> {
            let ex = listed(present@, "EFI/BOOT/BOOTX64.EFI"@);
            let ea = listed(present@, "EFI/BOOT/BOOTAA64.EFI"@);
            let ei = listed(present@, "EFI/BOOT/BOOTIA32.EFI"@);
            &&& p.root@ == root@
            &&& p.boot_entries@.len() == (if ex {
                1int
            } else {
                0int
            }) + (if ea {
                1int
            } else {
                0int
            }) + (if ei {
                1int
            } else {
                0int
            })
            &&& (ex ==> p.boot_entries@[0].path@ == "EFI/BOOT/BOOTX64.EFI"@
                && p.boot_entries@[0].arch == BootArch::X64)
            &&& (ea ==> {
                let i = if ex {
                    1int
                } else {
                    0int
                };
                p.boot_entries@[i].path@ == "EFI/BOOT/BOOTAA64.EFI"@ && p.boot_entries@[i].arch
                    == BootArch::Aarch64
            })
            &&& (ei ==> {
                let i = (if ex {
                    1int
                } else {
                    0int
                }) + (if ea {
                    1int
                } else {
                    0int
                });
                p.boot_entries@[i].path@ == "EFI/BOOT/BOOTIA32.EFI"@ && p.boot_entries@[i].arch
                    == BootArch::Ia32
            })
        },
        r matches Err(e) ==> e.kind == ErrorKind::Precondition,
{
    let mut entries: Vec<BootEntry> = Vec::new();
    let has_x64 = contains_path(present, "EFI/BOOT/BOOTX64.EFI");
    if has_x64 {
        entries.push(BootEntry { path: "EFI/BOOT/BOOTX64.EFI".to_owned(), arch: BootArch::X64 });
    }
    let has_aa64 = contains_path(present, "EFI/BOOT/BOOTAA64.EFI");
    if has_aa64 {
        entries.push(
            BootEntry { path: "EFI/BOOT/BOOTAA64.EFI".to_owned(), arch: BootArch::Aarch64 },
        );
    }
    let has_ia32 = contains_path(present, "EFI/BOOT/BOOTIA32.EFI");
    if has_ia32 {
        entries.push(
            BootEntry { path: "EFI/BOOT/BOOTIA32.EFI".to_owned(), arch: BootArch::Ia32 },
        );
    }

    if entries.len() == 0 {
        return Err(ForgeError::new(
            ErrorKind::Precondition,
            "bootloader package missing EFI/BOOT/*.EFI entries",
        ));
    }

    Ok(BootloaderPackage { root: root.to_owned(), boot_entries: entries })
}

} // verus!
