//! The FAT32 formatter's layout computation and sector images: geometry
//! selection, the boot sector, the FSINFO sector, the first FAT sector
//! and the volume label entry, each bit-exact. Writing the sectors to
//! the raw volume is the caller's part; the plan says which sector index
//! receives which bytes.

use vstd::prelude::*;

use crate::errors::{ErrorKind, ForgeError};

verus! {

/// Sector size in bytes; FAT32 here is always formatted at 512.
pub const BYTES_PER_SECTOR: u16 = 512;

/// Reserved sectors before the first FAT.
pub const RESERVED_SECTORS: u16 = 32;

/// Number of FAT copies.
pub const NUM_FATS: u8 = 2;

/// The root directory's cluster number.
pub const ROOT_CLUSTER: u32 = 2;

/// Where the FSINFO sector lives.
pub const FSINFO_SECTOR: u16 = 1;

/// Where the backup boot sector lives.
pub const BACKUP_BOOT_SECTOR: u16 = 6;

/// The media descriptor byte for fixed disks.
pub const MEDIA_DESCRIPTOR: u8 = 0xF8;

/// The computed layout of a formatted volume.
#[derive(Clone, Copy, Debug, PartialEq, Eq, Structural)]
pub struct Fat32Layout {
    pub total_sectors: u32,
    pub sectors_per_cluster: u8,
    pub sectors_per_fat: u32,
    pub root_dir_sector: u32,
}

/// The data clusters a geometry yields.
pub open spec fn clusters_of(total_sectors: u32, spc: u8, fat_size: u32) -> int {
    let used = 32 + 2 * fat_size;
    let data = if total_sectors >= used {
        total_sectors - used
    } else {
        0
    };
    data / (spc as int)
}

/// The FAT sectors a cluster count demands: four bytes per cluster plus
/// the two reserved entries, rounded up to whole sectors.
pub open spec fn fat_sectors_needed(clusters: int) -> int {
    ((clusters + 2) * 4 + 511) / 512
}

/// `fat_size` is self-consistent for the geometry: exactly what its own
/// cluster count demands, with at least one cluster.
pub open spec fn fat_size_stable(total_sectors: u32, spc: u8, fat_size: u32) -> bool {
    &&& clusters_of(total_sectors, spc, fat_size) > 0
    &&& fat_sectors_needed(clusters_of(total_sectors, spc, fat_size)) == fat_size
}

/// What one probe of the iteration yields: the FAT sectors the
/// geometry at `fat_size` demands, or nothing when it leaves no cluster
/// or the count overflows.
pub open spec fn needed_fat_spec(total_sectors: u32, spc: u8, fat_size: u32) -> Option<u32> {
    let clusters = clusters_of(total_sectors, spc, fat_size);
    if clusters == 0 {
        None
    } else {
        let needed = fat_sectors_needed(clusters);
        if needed > 0xFFFFFFFF {
            None
        } else {
            Some(needed as u32)
        }
    }
}

/// Where the fixed-point iteration from `fat_size` ends within `fuel`
/// rounds, if it settles.
pub open spec fn settled_fat_size(total_sectors: u32, spc: u8, fat_size: u32, fuel: u32) -> Option<
    u32,
>
    decreases fuel,
{
    if fuel == 0 {
        None
    } else {
        match needed_fat_spec(total_sectors, spc, fat_size) {
            None => None,
            Some(needed) => if needed == fat_size {
                Some(fat_size)
            } else if needed == 0 {
                None
            } else {
                settled_fat_size(total_sectors, spc, needed, (fuel - 1) as u32)
            },
        }
    }
}

/// What `compute_fat_size` yields: one probe from a single sector, then
/// the iteration, cut off after a fixed number of rounds.
pub open spec fn computed_fat_size(total_sectors: u32, spc: u8) -> Option<u32> {
    match needed_fat_spec(total_sectors, spc, 1) {
        None => None,
        Some(first) => if first == 1 {
            Some(1u32)
        } else {
            settled_fat_size(
                total_sectors,
                spc,
                if first == 0 {
                    1u32
                } else {
                    first
                },
                64,
            )
        },
    }
}

/// The FAT sectors needed by the geometry at a trial FAT size.
fn needed_fat_sectors(total_sectors: u32, spc: u8, fat_size: u32) -> (r: Result<u32, ForgeError>)
    requires
        spc >= 1,
        fat_size >= 1,
    ensures
        match r {
            Ok(n) => needed_fat_spec(total_sectors, spc, fat_size) == Some(n) && n
                == fat_sectors_needed(clusters_of(total_sectors, spc, fat_size)) && clusters_of(
                total_sectors,
                spc,
                fat_size,
            ) > 0,
            Err(e) => needed_fat_spec(total_sectors, spc, fat_size) is None && e.kind
                == ErrorKind::Precondition,
        },
{
    let used: u64 = 32 + 2 * (fat_size as u64);
    let data: u64 = if (total_sectors as u64) >= used {
        total_sectors as u64 - used
    } else {
        0
    };
    let clusters: u64 = data / (spc as u64);
    proof {
        assert(clusters == clusters_of(total_sectors, spc, fat_size));
    }
    if clusters == 0 {
        return Err(ForgeError::new(ErrorKind::Precondition, "invalid FAT32 size"));
    }
    let needed: u64 = ((clusters + 2) * 4 + 511) / 512;
    if needed > 0xFFFFFFFF {
        return Err(ForgeError::new(ErrorKind::Precondition, "invalid FAT32 size"));
    }
    Ok(needed as u32)
}

/// Find a FAT size that is consistent with its own cluster count, by
/// fixed-point iteration from one sector, cut off after a fixed number
/// of rounds — real geometries settle within a handful.
///
/// Succeeds exactly when the iteration settles; `Ok(f)` is then the
/// iteration's value, which is stable: exactly the sectors its own
/// cluster count demands, that count positive. The error otherwise is a
/// `Precondition`.
pub fn compute_fat_size(total_sectors: u32, spc: u8) -> (r: Result<u32, ForgeError>)
    requires
        spc >= 1,
    ensures
        r is Ok <==> computed_fat_size(total_sectors, spc) is Some,
        r matches Ok(f) ==> computed_fat_size(total_sectors, spc) == Some(f) && fat_size_stable(
            total_sectors,
            spc,
            f,
        ) && f >= 1,
        r matches Err(e) ==> e.kind == ErrorKind::Precondition,
{
    let first = match needed_fat_sectors(total_sectors, spc, 1) {
        Ok(n) => n,
        Err(e) => {
            return Err(e);
        },
    };
    if first == 1 {
        return Ok(1);
    }
    let start = if first == 0 {
        1
    } else {
        first
    };
    settle_fat_size(total_sectors, spc, start, 64)
}

/// Walk the fixed-point iteration until the FAT size is stable or the
/// fuel runs out.
fn settle_fat_size(total_sectors: u32, spc: u8, fat_size: u32, fuel: u32) -> (r: Result<
    u32,
    ForgeError,
>)
    requires
        spc >= 1,
        fat_size >= 1,
    ensures
        match r {
            Ok(f) => settled_fat_size(total_sectors, spc, fat_size, fuel) == Some(f)
                && fat_size_stable(total_sectors, spc, f) && f >= 1,
            Err(e) => settled_fat_size(total_sectors, spc, fat_size, fuel) is None && e.kind
                == ErrorKind::Precondition,
        },
    decreases fuel,
{
    if fuel == 0 {
        return Err(ForgeError::new(ErrorKind::Precondition, "invalid FAT32 size"));
    }
    let needed = match needed_fat_sectors(total_sectors, spc, fat_size) {
        Ok(n) => n,
        Err(e) => {
            return Err(e);
        },
    };
    if needed == fat_size {
        return Ok(fat_size);
    }
    if needed == 0 {
        return Err(ForgeError::new(ErrorKind::Precondition, "invalid FAT32 size"));
    }
    settle_fat_size(total_sectors, spc, needed, fuel - 1)
}

/// The fixed candidate cluster sizes, smallest first.
pub open spec fn spc_candidates() -> Seq<u8> {
    seq![1u8, 2, 4, 8, 16, 32, 64, 128]
}

/// The candidate's settled FAT size puts its cluster count within
/// FAT32's legal band.
pub open spec fn candidate_fits(total_sectors: u32, spc: u8) -> bool {
    match computed_fat_size(total_sectors, spc) {
        Some(f) => 65525 <= clusters_of(total_sectors, spc, f) <= 0x0FFFFFF5,
        None => false,
    }
}

/// The first fitting candidate of the fixed set, if any fits.
pub open spec fn selected_spc(total_sectors: u32) -> Option<u8> {
    if candidate_fits(total_sectors, 1) {
        Some(1u8)
    } else if candidate_fits(total_sectors, 2) {
        Some(2u8)
    } else if candidate_fits(total_sectors, 4) {
        Some(4u8)
    } else if candidate_fits(total_sectors, 8) {
        Some(8u8)
    } else if candidate_fits(total_sectors, 16) {
        Some(16u8)
    } else if candidate_fits(total_sectors, 32) {
        Some(32u8)
    } else if candidate_fits(total_sectors, 64) {
        Some(64u8)
    } else if candidate_fits(total_sectors, 128) {
        Some(128u8)
    } else {
        None
    }
}

/// Select the sectors-per-cluster: the **first** candidate of
/// {1,2,4,8,16,32,64,128} whose settled FAT size yields a cluster count
/// within FAT32's legal band.
///
/// Succeeds exactly when some candidate fits, and then returns the
/// first such — no smaller candidate fits. The error otherwise is a
/// `Precondition`.
#[verifier::rlimit(100)]
#[verifier::spinoff_prover]
pub fn select_sectors_per_cluster(total_sectors: u32) -> (r: Result<u8, ForgeError>)
    ensures
        r is Ok <==> selected_spc(total_sectors) is Some,
        r matches Ok(spc) ==> selected_spc(total_sectors) == Some(spc) && candidate_fits(
            total_sectors,
            spc,
        ),
        r matches Err(e) ==> e.kind == ErrorKind::Precondition,
{
    let mut k: usize = 0;
    while k < 8
        invariant
            k <= 8,
            forall|j: int| 0 <= j < k ==> !candidate_fits(total_sectors, #[trigger] spc_candidates()[j]),
        decreases 8 - k,
    {
        let spc: u8 = if k == 0 {
            1
        } else if k == 1 {
            2
        } else if k == 2 {
            4
        } else if k == 3 {
            8
        } else if k == 4 {
            16
        } else if k == 5 {
            32
        } else if k == 6 {
            64
        } else {
            128
        };
        proof {
            assert(spc_candidates()[k as int] == spc);
        }
        match compute_fat_size(total_sectors, spc) {
            Ok(fat) => {
                let used: u64 = 32 + 2 * (fat as u64);
                let data: u64 = if (total_sectors as u64) >= used {
                    total_sectors as u64 - used
                } else {
                    0
                };
                let clusters: u64 = data / (spc as u64);
                proof {
                    assert(clusters == clusters_of(total_sectors, spc, fat));
                }
                if 65525 <= clusters && clusters <= 0x0FFFFFF5 {
                    proof {
                        assert(candidate_fits(total_sectors, spc));
                    }
                    return Ok(spc);
                }
                proof {
                    assert(!candidate_fits(total_sectors, spc));
                }
            },
            Err(_) => {
                proof {
                    assert(!candidate_fits(total_sectors, spc));
                }
            },
        }
        k = k + 1;
    }
    proof {
        assert(selected_spc(total_sectors) is None) by {
            assert(!candidate_fits(total_sectors, spc_candidates()[0]));
            assert(!candidate_fits(total_sectors, spc_candidates()[1]));
            assert(!candidate_fits(total_sectors, spc_candidates()[2]));
            assert(!candidate_fits(total_sectors, spc_candidates()[3]));
            assert(!candidate_fits(total_sectors, spc_candidates()[4]));
            assert(!candidate_fits(total_sectors, spc_candidates()[5]));
            assert(!candidate_fits(total_sectors, spc_candidates()[6]));
            assert(!candidate_fits(total_sectors, spc_candidates()[7]));
        }
    }
    Err(ForgeError::new(ErrorKind::Precondition, "unable to select sectors per cluster for FAT32"))
}

/// The two bytes of `v`, little-endian, at `offset` and `offset + 1`.
pub open spec fn le16_at(s: Seq<u8>, offset: int, v: u16) -> bool {
    s[offset] == v % 256 && s[offset + 1] == v / 256
}

/// The four bytes of `v`, little-endian, from `offset`.
pub open spec fn le32_at(s: Seq<u8>, offset: int, v: u32) -> bool {
    &&& s[offset] == v % 256
    &&& s[offset + 1] == (v / 256) % 256
    &&& s[offset + 2] == (v / 65536) % 256
    &&& s[offset + 3] == v / 16777216
}

/// Write `v` little-endian at `offset`.
pub fn write_u16(buffer: &mut Vec<u8>, offset: usize, value: u16)
    requires
        offset + 2 <= old(buffer)@.len(),
    ensures
        final(buffer)@.len() == old(buffer)@.len(),
        le16_at(final(buffer)@, offset as int, value),
        forall|i: int|
            0 <= i < old(buffer)@.len() && !(offset <= i < offset + 2) ==> final(buffer)@[i] == old(
                buffer,
            )@[i],
{
    let n = buffer.len();
    proof {
        assert(offset + 2 <= n);
    }
    buffer.set(offset, (value % 256) as u8);
    buffer.set(offset + 1, (value / 256) as u8);
}

/// Write `v` little-endian at `offset`.
pub fn write_u32(buffer: &mut Vec<u8>, offset: usize, value: u32)
    requires
        offset + 4 <= old(buffer)@.len(),
    ensures
        final(buffer)@.len() == old(buffer)@.len(),
        le32_at(final(buffer)@, offset as int, value),
        forall|i: int|
            0 <= i < old(buffer)@.len() && !(offset <= i < offset + 4) ==> final(buffer)@[i] == old(
                buffer,
            )@[i],
{
    let n = buffer.len();
    proof {
        assert(offset + 4 <= n);
    }
    buffer.set(offset, (value % 256) as u8);
    buffer.set(offset + 1, ((value / 256) % 256) as u8);
    buffer.set(offset + 2, ((value / 65536) % 256) as u8);
    buffer.set(offset + 3, (value / 16777216) as u8);
}

/// Write `v` little-endian at 32-bit slot `index`.
pub fn write_u32_slice(buffer: &mut Vec<u8>, index: usize, value: u32)
    requires
        index * 4 + 4 <= old(buffer)@.len(),
    ensures
        final(buffer)@.len() == old(buffer)@.len(),
        le32_at(final(buffer)@, index * 4, value),
        forall|i: int|
            0 <= i < old(buffer)@.len() && !(index * 4 <= i < index * 4 + 4) ==> final(buffer)@[i]
                == old(buffer)@[i],
{
    let n = buffer.len();
    proof {
        assert(index * 4 + 4 <= n);
    }
    write_u32(buffer, index * 4, value);
}

/// A vector of `n` zero bytes.
pub fn zero_bytes(n: usize) -> (r: Vec<u8>)
    ensures
        r@.len() == n,
        forall|i: int| 0 <= i < n ==> r@[i] == 0u8,
{
    let mut out: Vec<u8> = Vec::new();
    let mut i: usize = 0;
    while i < n
        invariant
            i <= n,
            out@.len() == i,
            forall|j: int| 0 <= j < i ==> out@[j] == 0u8,
        decreases n - i,
    {
        out.push(0u8);
        i = i + 1;
    }
    out
}

/// An 11-byte volume label: the label's ASCII characters uppercased,
/// truncated to eleven, padded with spaces.
pub fn label_bytes(label: &str) -> (r: Vec<u8>)
    requires
        label.is_ascii(),
    ensures
        r@.len() == 11,
        forall|i: int|
            0 <= i < 11 ==> r@[i] == (if i < label@.len() {
                upper_ascii(label@[i] as u8)
            } else {
                32u8
            }),
{
    let mut out: Vec<u8> = Vec::new();
    let len = label.unicode_len();
    let mut i: usize = 0;
    while i < 11
        invariant
            label.is_ascii(),
            len == label@.len(),
            i <= 11,
            out@.len() == i,
            forall|j: int|
                0 <= j < i ==> out@[j] == (if j < label@.len() {
                    upper_ascii(label@[j] as u8)
                } else {
                    32u8
                }),
        decreases 11 - i,
    {
        if i < len {
            let b = label.get_ascii(i);
            out.push(upper_ascii_exec(b));
        } else {
            out.push(32u8);
        }
        i = i + 1;
    }
    out
}

/// An ASCII byte uppercased.
pub open spec fn upper_ascii(b: u8) -> u8 {
    if 97 <= b && b <= 122 {
        (b - 32) as u8
    } else {
        b
    }
}

/// Uppercase one ASCII byte.
fn upper_ascii_exec(b: u8) -> (r: u8)
    ensures
        r == upper_ascii(b),
{
    if 97 <= b && b <= 122 {
        b - 32
    } else {
        b
    }
}

/// Whether an 11-byte label is all blanks.
pub fn label_is_blank(label: &Vec<u8>) -> (r: bool)
    ensures
        r == (forall|i: int| 0 <= i < label@.len() ==> label@[i] == 32u8),
{
    let mut i: usize = 0;
    while i < label.len()
        invariant
            i <= label@.len(),
            forall|j: int| 0 <= j < i ==> label@[j] == 32u8,
        decreases label@.len() - i,
    {
        if label[i] != 32 {
            return false;
        }
        i = i + 1;
    }
    true
}

/// The boot sector is laid out as FAT32 firmware expects: jump code,
/// `PHOENIX ` OEM name, the BPB fields at their fixed offsets, the
/// label and type strings, and the `0xAA55` signature.
pub open spec fn boot_sector_wf(
    s: Seq<u8>,
    total_sectors: u32,
    spc: u8,
    spf: u32,
    volume_id: u32,
    label: Seq<u8>,
) -> bool {
    &&& s.len() == 512
    &&& s[0] == 0xEB && s[1] == 0x58 && s[2] == 0x90
    &&& s[3] == 0x50 && s[4] == 0x48 && s[5] == 0x4F && s[6] == 0x45 && s[7] == 0x4E && s[8]
        == 0x49 && s[9] == 0x58 && s[10] == 0x20
    &&& le16_at(s, 0x0B, 512)
    &&& s[0x0D] == spc
    &&& le16_at(s, 0x0E, 32)
    &&& s[0x10] == 2
    &&& le16_at(s, 0x11, 0)
    &&& le16_at(s, 0x13, (if total_sectors < 65536 {
        total_sectors as u16
    } else {
        0u16
    }))
    &&& s[0x15] == 0xF8
    &&& le16_at(s, 0x16, 0)
    &&& le16_at(s, 0x18, 63)
    &&& le16_at(s, 0x1A, 255)
    &&& le32_at(s, 0x1C, 0)
    &&& le32_at(s, 0x20, total_sectors)
    &&& le32_at(s, 0x24, spf)
    &&& le16_at(s, 0x28, 0)
    &&& le16_at(s, 0x2A, 0)
    &&& le32_at(s, 0x2C, 2)
    &&& le16_at(s, 0x30, 1)
    &&& le16_at(s, 0x32, 6)
    &&& s[0x36] == 0x80
    &&& s[0x38] == 0x29
    &&& le32_at(s, 0x39, volume_id)
    &&& (forall|i: int| 0 <= i < 10 ==> s[0x3D + i] == label[i])
    &&& s[0x47] == 0x46 && s[0x48] == 0x41 && s[0x49] == 0x54 && s[0x4A] == 0x33 && s[0x4B]
        == 0x32 && s[0x4C] == 0x20 && s[0x4D] == 0x20 && s[0x4E] == 0x20
    &&& s[510] == 0x55 && s[511] == 0xAA
}

/// Build the boot sector.
#[verifier::rlimit(100)]
pub fn build_boot_sector(
    total_sectors: u32,
    sectors_per_cluster: u8,
    sectors_per_fat: u32,
    volume_id: u32,
    volume_label: &Vec<u8>,
) -> (r: Vec<u8>)
    requires
        volume_label@.len() == 11,
    ensures
        boot_sector_wf(
            r@,
            total_sectors,
            sectors_per_cluster,
            sectors_per_fat,
            volume_id,
            volume_label@,
        ),
{
    let mut sector = zero_bytes(512);
    sector.set(0, 0xEB);
    sector.set(1, 0x58);
    sector.set(2, 0x90);
    sector.set(3, 0x50);
    sector.set(4, 0x48);
    sector.set(5, 0x4F);
    sector.set(6, 0x45);
    sector.set(7, 0x4E);
    sector.set(8, 0x49);
    sector.set(9, 0x58);
    sector.set(10, 0x20);
    write_u16(&mut sector, 0x0B, 512);
    sector.set(0x0D, sectors_per_cluster);
    write_u16(&mut sector, 0x0E, 32);
    sector.set(0x10, 2);
    write_u16(&mut sector, 0x11, 0);
    if total_sectors < 65536 {
        write_u16(&mut sector, 0x13, total_sectors as u16);
    } else {
        write_u16(&mut sector, 0x13, 0);
    }
    sector.set(0x15, 0xF8);
    write_u16(&mut sector, 0x16, 0);
    write_u16(&mut sector, 0x18, 63);
    write_u16(&mut sector, 0x1A, 255);
    write_u32(&mut sector, 0x1C, 0);
    write_u32(&mut sector, 0x20, total_sectors);
    write_u32(&mut sector, 0x24, sectors_per_fat);
    write_u16(&mut sector, 0x28, 0);
    write_u16(&mut sector, 0x2A, 0);
    write_u32(&mut sector, 0x2C, 2);
    write_u16(&mut sector, 0x30, 1);
    write_u16(&mut sector, 0x32, 6);
    sector.set(0x36, 0x80);
    sector.set(0x38, 0x29);
    write_u32(&mut sector, 0x39, volume_id);
    let mut i: usize = 0;
    while i < 10
        invariant
            volume_label@.len() == 11,
            i <= 10,
            sector@.len() == 512,
            forall|j: int| 0 <= j < i ==> sector@[0x3D + j] == volume_label@[j],
            boot_prefix_set(sector@, total_sectors, sectors_per_cluster, sectors_per_fat,
                volume_id),
        decreases 10 - i,
    {
        sector.set(0x3D + i, volume_label[i]);
        i = i + 1;
    }
    sector.set(0x47, 0x46);
    sector.set(0x48, 0x41);
    sector.set(0x49, 0x54);
    sector.set(0x4A, 0x33);
    sector.set(0x4B, 0x32);
    sector.set(0x4C, 0x20);
    sector.set(0x4D, 0x20);
    sector.set(0x4E, 0x20);
    sector.set(510, 0x55);
    sector.set(511, 0xAA);
    sector
}

/// The fields written before the label loop, used as its invariant.
pub open spec fn boot_prefix_set(
    s: Seq<u8>,
    total_sectors: u32,
    spc: u8,
    spf: u32,
    volume_id: u32,
) -> bool {
    &&& s.len() == 512
    &&& s[0] == 0xEB && s[1] == 0x58 && s[2] == 0x90
    &&& s[3] == 0x50 && s[4] == 0x48 && s[5] == 0x4F && s[6] == 0x45 && s[7] == 0x4E && s[8]
        == 0x49 && s[9] == 0x58 && s[10] == 0x20
    &&& le16_at(s, 0x0B, 512)
    &&& s[0x0D] == spc
    &&& le16_at(s, 0x0E, 32)
    &&& s[0x10] == 2
    &&& le16_at(s, 0x11, 0)
    &&& le16_at(s, 0x13, (if total_sectors < 65536 {
        total_sectors as u16
    } else {
        0u16
    }))
    &&& s[0x15] == 0xF8
    &&& le16_at(s, 0x16, 0)
    &&& le16_at(s, 0x18, 63)
    &&& le16_at(s, 0x1A, 255)
    &&& le32_at(s, 0x1C, 0)
    &&& le32_at(s, 0x20, total_sectors)
    &&& le32_at(s, 0x24, spf)
    &&& le16_at(s, 0x28, 0)
    &&& le16_at(s, 0x2A, 0)
    &&& le32_at(s, 0x2C, 2)
    &&& le16_at(s, 0x30, 1)
    &&& le16_at(s, 0x32, 6)
    &&& s[0x36] == 0x80
    &&& s[0x38] == 0x29
    &&& le32_at(s, 0x39, volume_id)
}

/// The FSINFO sector: lead signature, structure signature, unknown free
/// count and next-free hints, trailing signature, zeros elsewhere.
pub open spec fn fsinfo_wf(s: Seq<u8>) -> bool {
    &&& s.len() == 512
    &&& s[0] == 0x52 && s[1] == 0x52 && s[2] == 0x61 && s[3] == 0x41
    &&& s[0x1E4] == 0x72 && s[0x1E5] == 0x72 && s[0x1E6] == 0x41 && s[0x1E7] == 0x61
    &&& le32_at(s, 0x1E8, 0xFFFFFFFF)
    &&& le32_at(s, 0x1EC, 0xFFFFFFFF)
    &&& s[510] == 0x55 && s[511] == 0xAA
    &&& forall|i: int|
        0 <= i < 512 && !(0 <= i < 4) && !(0x1E4 <= i < 0x1F0) && !(510 <= i < 512) ==> s[i] == 0u8
}

/// Build the FSINFO sector.
pub fn build_fsinfo() -> (r: Vec<u8>)
    ensures
        fsinfo_wf(r@),
{
    let mut sector = zero_bytes(512);
    sector.set(0, 0x52);
    sector.set(1, 0x52);
    sector.set(2, 0x61);
    sector.set(3, 0x41);
    sector.set(0x1E4, 0x72);
    sector.set(0x1E5, 0x72);
    sector.set(0x1E6, 0x41);
    sector.set(0x1E7, 0x61);
    write_u32(&mut sector, 0x1E8, 0xFFFFFFFF);
    write_u32(&mut sector, 0x1EC, 0xFFFFFFFF);
    sector.set(510, 0x55);
    sector.set(511, 0xAA);
    sector
}

/// The first FAT sector: media entry `0x0FFFFFF8`, then two end-of-chain
/// entries `0x0FFFFFFF`, zeros elsewhere.
pub open spec fn fat_first_sector_wf(s: Seq<u8>) -> bool {
    &&& s.len() == 512
    &&& le32_at(s, 0, 0x0FFFFFF8)
    &&& le32_at(s, 4, 0x0FFFFFFF)
    &&& le32_at(s, 8, 0x0FFFFFFF)
    &&& forall|i: int| 12 <= i < 512 ==> s[i] == 0u8
}

/// Build the first sector of a FAT.
pub fn build_fat_first_sector() -> (r: Vec<u8>)
    ensures
        fat_first_sector_wf(r@),
{
    let mut sector = zero_bytes(512);
    write_u32_slice(&mut sector, 0, 0x0FFFFFF8);
    write_u32_slice(&mut sector, 1, 0x0FFFFFFF);
    write_u32_slice(&mut sector, 2, 0x0FFFFFFF);
    sector
}

/// The 32-byte root-directory entry carrying the volume label, with the
/// volume-label attribute.
pub open spec fn label_entry_wf(s: Seq<u8>, label: Seq<u8>) -> bool {
    &&& s.len() == 32
    &&& (forall|i: int| 0 <= i < 11 ==> s[i] == label[i])
    &&& s[11] == 0x08
    &&& forall|i: int| 12 <= i < 32 ==> s[i] == 0u8
}

/// Build the volume-label directory entry.
pub fn build_label_entry(label: &Vec<u8>) -> (r: Vec<u8>)
    requires
        label@.len() == 11,
    ensures
        label_entry_wf(r@, label@),
{
    let mut entry = zero_bytes(32);
    let mut i: usize = 0;
    while i < 11
        invariant
            label@.len() == 11,
            i <= 11,
            entry@.len() == 32,
            forall|j: int| 0 <= j < i ==> entry@[j] == label@[j],
            forall|j: int| i <= j < 32 ==> entry@[j] == 0u8,
        decreases 11 - i,
    {
        entry.set(i, label[i]);
        i = i + 1;
    }
    entry.set(11, 0x08);
    entry
}

/// A complete format plan: the layout, each built sector image, and
/// where each goes. The caller writes `boot_sector` at LBA 0 and 6,
/// `fsinfo` at LBA 1 and 7, `fat_first_sector` at the head of both FATs
/// — `32` and `32 + sectors_per_fat` — zeros over the rest of both FATs
/// and the root cluster, and `label_entry` at the root directory's first
/// sector when it is present.
#[derive(Clone, Debug)]
pub struct Fat32Plan {
    pub layout: Fat32Layout,
    pub boot_sector: Vec<u8>,
    pub fsinfo: Vec<u8>,
    pub fat_first_sector: Vec<u8>,
    pub label_entry: Option<Vec<u8>>,
    pub volume_label: Vec<u8>,
    pub volume_id: u32,
}

/// Every sector write of the plan, in order: `(sector index, bytes)`.
/// The boot sector goes to LBA 0 and its backup LBA 6; FSINFO to LBA 1
/// and 7; the FAT head to both FAT starts.
pub fn fat32_sector_writes(plan: &Fat32Plan) -> (w: Vec<(u32, Vec<u8>)>)
    requires
        plan.layout.sectors_per_fat <= 0xFFFFFF,
    ensures
        w@.len() == 6,
        w@[0].0 == 0 && w@[0].1@ == plan.boot_sector@,
        w@[1].0 == 6 && w@[1].1@ == plan.boot_sector@,
        w@[2].0 == 1 && w@[2].1@ == plan.fsinfo@,
        w@[3].0 == 7 && w@[3].1@ == plan.fsinfo@,
        w@[4].0 == 32 && w@[4].1@ == plan.fat_first_sector@,
        w@[5].0 == 32 + plan.layout.sectors_per_fat && w@[5].1@ == plan.fat_first_sector@,
        w@[0].1@ == w@[1].1@,
        w@[2].1@ == w@[3].1@,
{
    let mut out: Vec<(u32, Vec<u8>)> = Vec::new();
    out.push((0, plan.boot_sector.clone()));
    out.push((6, plan.boot_sector.clone()));
    out.push((1, plan.fsinfo.clone()));
    out.push((7, plan.fsinfo.clone()));
    out.push((32, plan.fat_first_sector.clone()));
    out.push((32 + plan.layout.sectors_per_fat, plan.fat_first_sector.clone()));
    out
}

/// Every zero-filled sector run of the plan, in order: `(first sector,
/// count)`. The remainder of the first FAT after its head sector, the
/// remainder of the second, and the root cluster — whose first sector
/// the label entry's 32 bytes then partly overwrite, when one is
/// present.
pub fn fat32_zero_ranges(plan: &Fat32Plan) -> (z: Vec<(u32, u32)>)
    requires
        plan.layout.sectors_per_fat >= 1,
        plan.layout.sectors_per_fat <= 0xFFFFFF,
    ensures
        z@.len() == 3,
        z@[0].0 == 33 && z@[0].1 == plan.layout.sectors_per_fat - 1,
        z@[1].0 == 33 + plan.layout.sectors_per_fat && z@[1].1 == plan.layout.sectors_per_fat
            - 1,
        z@[2].0 == 32 + 2 * plan.layout.sectors_per_fat && z@[2].1
            == plan.layout.sectors_per_cluster as u32,
{
    let spf = plan.layout.sectors_per_fat;
    let mut out: Vec<(u32, u32)> = Vec::new();
    out.push((33, spf - 1));
    out.push((33 + spf, spf - 1));
    out.push((32 + 2 * spf, plan.layout.sectors_per_cluster as u32));
    out
}

/// Compute a full FAT32 format plan for a raw volume.
///
/// Succeeds **exactly** when the size is at least 1000 sectors, a whole
/// number of sectors, at most `u32::MAX` sectors, and some candidate
/// cluster size fits; each size violation is its own `Precondition`
/// with its own message. On success the geometry is the first fitting
/// candidate's settled FAT size, stable, with a cluster count in
/// FAT32's legal band; the volume label is the upper-cased,
/// space-padded label argument; and the boot sector, FSINFO, FAT head
/// and label entry are bit-exact as `boot_sector_wf` and friends state,
/// with the same boot-sector and FSINFO images serving both their
/// primary and backup locations.
#[verifier::rlimit(100)]
#[verifier::spinoff_prover]
pub fn plan_fat32_format(total_bytes: u64, label: &str, volume_id: u32) -> (r: Result<
    Fat32Plan,
    ForgeError,
>)
    requires
        label.is_ascii(),
    ensures
        r is Ok <==> total_bytes >= 512000 && total_bytes % 512 == 0 && total_bytes / 512
            <= u32::MAX && selected_spc((total_bytes / 512) as u32) is Some,
        total_bytes < 512000 ==> (r matches Err(e) && e.message@ == "device too small for FAT32"@),
        total_bytes >= 512000 && total_bytes % 512 != 0 ==> (r matches Err(e) && e.message@
            == "device size must be multiple of 512 bytes"@),
        total_bytes >= 512000 && total_bytes % 512 == 0 && total_bytes / 512 > u32::MAX ==> (
        r matches Err(e) && e.message@ == "device too large for FAT32"@),
        r matches Err(e) ==> e.kind == ErrorKind::Precondition,
        r matches Ok(p) ==> {
            &&& p.layout.total_sectors == total_bytes / 512
            &&& selected_spc(p.layout.total_sectors) == Some(p.layout.sectors_per_cluster)
            &&& computed_fat_size(p.layout.total_sectors, p.layout.sectors_per_cluster) == Some(
                p.layout.sectors_per_fat,
            )
            &&& fat_size_stable(
                p.layout.total_sectors,
                p.layout.sectors_per_cluster,
                p.layout.sectors_per_fat,
            )
            &&& 65525 <= clusters_of(
                p.layout.total_sectors,
                p.layout.sectors_per_cluster,
                p.layout.sectors_per_fat,
            ) <= 0x0FFFFFF5
            &&& 1 <= p.layout.sectors_per_fat <= 0xFFFFFF
            &&& p.layout.root_dir_sector == 32 + 2 * p.layout.sectors_per_fat
            &&& boot_sector_wf(
                p.boot_sector@,
                p.layout.total_sectors,
                p.layout.sectors_per_cluster,
                p.layout.sectors_per_fat,
                p.volume_id,
                p.volume_label@,
            )
            &&& fsinfo_wf(p.fsinfo@)
            &&& fat_first_sector_wf(p.fat_first_sector@)
            &&& p.volume_id == volume_id
            &&& p.volume_label@.len() == 11
            &&& (forall|i: int|
                0 <= i < 11 ==> p.volume_label@[i] == (if i < label@.len() {
                    upper_ascii(label@[i] as u8)
                } else {
                    32u8
                }))
            &&& (match p.label_entry {
                Some(entry) => label_entry_wf(entry@, p.volume_label@),
                None => forall|i: int|
                    0 <= i < p.volume_label@.len() ==> p.volume_label@[i] == 32u8,
            })
        },
{
    if total_bytes < 512000 {
        return Err(ForgeError::new(ErrorKind::Precondition, "device too small for FAT32"));
    }
    if total_bytes % 512 != 0 {
        return Err(ForgeError::new(
            ErrorKind::Precondition,
            "device size must be multiple of 512 bytes",
        ));
    }

    let total_sectors_u64 = total_bytes / 512;
    if total_sectors_u64 > u32::MAX as u64 {
        return Err(ForgeError::new(ErrorKind::Precondition, "device too large for FAT32"));
    }
    let total_sectors = total_sectors_u64 as u32;

    let sectors_per_cluster = match select_sectors_per_cluster(total_sectors) {
        Ok(v) => v,
        Err(e) => {
            return Err(e);
        },
    };
    let sectors_per_fat = match compute_fat_size(total_sectors, sectors_per_cluster) {
        Ok(v) => v,
        Err(e) => {
            proof {
                assert(computed_fat_size(total_sectors, sectors_per_cluster) is Some);
            }
            return Err(e);
        },
    };
    proof {
        assert(computed_fat_size(total_sectors, sectors_per_cluster) == Some(sectors_per_fat));
        assert(65525 <= clusters_of(total_sectors, sectors_per_cluster, sectors_per_fat)
            <= 0x0FFFFFF5);
        assert(sectors_per_fat <= 0xFFFFFF) by {
            let c = clusters_of(total_sectors, sectors_per_cluster, sectors_per_fat);
            assert(sectors_per_fat == ((c + 2) * 4 + 511) / 512);
            assert((c + 2) * 4 + 511 <= 1073742299);
            vstd::arithmetic::div_mod::lemma_div_is_ordered((c + 2) * 4 + 511, 1073742299, 512);
            assert(1073742299int / 512int == 2097152int);
        }
    }

    let root_dir_sector: u32 = 32 + 2 * sectors_per_fat;

    let volume_label = label_bytes(label);
    let boot_sector = build_boot_sector(
        total_sectors,
        sectors_per_cluster,
        sectors_per_fat,
        volume_id,
        &volume_label,
    );
    let fsinfo = build_fsinfo();
    let fat_first_sector = build_fat_first_sector();
    let label_entry: Option<Vec<u8>> = if label_is_blank(&volume_label) {
        None
    } else {
        Some(build_label_entry(&volume_label))
    };

    Ok(Fat32Plan {
        layout: Fat32Layout {
            total_sectors,
            sectors_per_cluster,
            sectors_per_fat,
            root_dir_sector,
        },
        boot_sector,
        fsinfo,
        fat_first_sector,
        label_entry,
        volume_label,
        volume_id,
    })
}

/// Relies on `std::time::SystemTime::now` and `duration_since` the Unix
/// epoch: the current time in whole seconds, or nothing on a pre-epoch
/// clock. The value depends on the clock, so nothing is promised about
/// it.
#[verifier::external_body]
pub fn current_unix_secs() -> Option<u64> {
    std::time::SystemTime::now()
        .duration_since(std::time::UNIX_EPOCH)
        .ok()
        .map(|d| d.as_secs())
}

/// A volume id from the current time, as the formatter stamps new
/// volumes; a fixed fallback stands in when the clock is unusable.
pub fn volume_id_now() -> u32 {
    match current_unix_secs() {
        Some(secs) => #[verifier::truncate] (secs as u32),
        None => 0x12345678,
    }
}

} // verus!
