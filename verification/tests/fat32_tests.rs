use phoenix_forge::fat32::{fat32_sector_writes, plan_fat32_format};

fn le16(s: &[u8], off: usize) -> u16 {
    u16::from_le_bytes([s[off], s[off + 1]])
}

fn le32(s: &[u8], off: usize) -> u32 {
    u32::from_le_bytes([s[off], s[off + 1], s[off + 2], s[off + 3]])
}

#[test]
fn format_plan_is_bit_exact() {
    let total_bytes: u64 = 128 * 1024 * 1024;
    let plan = plan_fat32_format(total_bytes, "PHOENIX", 0x1234_5678).unwrap();
    let layout = plan.layout;
    assert_eq!(layout.total_sectors, (total_bytes / 512) as u32);
    assert_eq!(layout.root_dir_sector, 32 + 2 * layout.sectors_per_fat);

    let clusters = (layout.total_sectors - 32 - 2 * layout.sectors_per_fat)
        / layout.sectors_per_cluster as u32;
    assert!(clusters >= 65525, "clusters {}", clusters);
    assert!(clusters <= 0x0FFF_FFF5);
    // At this size the smallest candidate already fits, and selection
    // takes the first fitting one.
    assert_eq!(layout.sectors_per_cluster, 1);

    let boot = &plan.boot_sector;
    assert_eq!(boot.len(), 512);
    assert_eq!(&boot[0..3], &[0xEB, 0x58, 0x90]);
    assert_eq!(&boot[3..11], b"PHOENIX ");
    assert_eq!(le16(boot, 0x0B), 512);
    assert_eq!(boot[0x0D], layout.sectors_per_cluster);
    assert_eq!(le16(boot, 0x0E), 32);
    assert_eq!(boot[0x10], 2);
    assert_eq!(le32(boot, 0x20), layout.total_sectors);
    assert_eq!(le32(boot, 0x24), layout.sectors_per_fat);
    assert_eq!(le32(boot, 0x2C), 2);
    assert_eq!(le16(boot, 0x30), 1);
    assert_eq!(le16(boot, 0x32), 6);
    assert_eq!(boot[0x15], 0xF8);
    assert_eq!(le32(boot, 0x39), 0x1234_5678);
    assert_eq!(&boot[0x47..0x4F], b"FAT32   ");
    assert_eq!(boot[510], 0x55);
    assert_eq!(boot[511], 0xAA);

    let fsinfo = &plan.fsinfo;
    assert_eq!(fsinfo.len(), 512);
    assert_eq!(le32(fsinfo, 0), 0x41615252);
    assert_eq!(le32(fsinfo, 0x1E4), 0x61417272);
    assert_eq!(le32(fsinfo, 0x1E8), 0xFFFF_FFFF);
    assert_eq!(le32(fsinfo, 0x1EC), 0xFFFF_FFFF);
    assert_eq!(fsinfo[510], 0x55);
    assert_eq!(fsinfo[511], 0xAA);

    let fat = &plan.fat_first_sector;
    assert_eq!(le32(fat, 0), 0x0FFF_FFF8);
    assert_eq!(le32(fat, 4), 0x0FFF_FFFF);
    assert_eq!(le32(fat, 8), 0x0FFF_FFFF);
    assert!(fat[12..].iter().all(|b| *b == 0));

    let entry = plan.label_entry.as_ref().expect("nonblank label entry");
    assert_eq!(&entry[0..11], b"PHOENIX    ");
    assert_eq!(entry[11], 0x08);
}

#[test]
fn backup_sectors_equal_primaries() {
    let plan = plan_fat32_format(512 * 1024 * 1024, "DATA", 1).unwrap();
    let writes = fat32_sector_writes(&plan);
    let zeroes = phoenix_forge::fat32::fat32_zero_ranges(&plan);
    assert_eq!(zeroes.len(), 3);
    assert_eq!(zeroes[0], (33, plan.layout.sectors_per_fat - 1));
    assert_eq!(
        zeroes[1],
        (33 + plan.layout.sectors_per_fat, plan.layout.sectors_per_fat - 1)
    );
    assert_eq!(
        zeroes[2],
        (plan.layout.root_dir_sector, plan.layout.sectors_per_cluster as u32)
    );
    assert_eq!(writes.len(), 6);
    assert_eq!(writes[0].0, 0);
    assert_eq!(writes[1].0, 6);
    assert_eq!(writes[0].1, writes[1].1, "boot sector backup differs");
    assert_eq!(writes[2].0, 1);
    assert_eq!(writes[3].0, 7);
    assert_eq!(writes[2].1, writes[3].1, "fsinfo backup differs");
    assert_eq!(writes[4].0, 32);
    assert_eq!(writes[5].0, 32 + plan.layout.sectors_per_fat);
    assert_eq!(writes[4].1, writes[5].1);
}

#[test]
fn fat_size_is_a_fixed_point() {
    let plan = plan_fat32_format(128 * 1024 * 1024, "X", 0).unwrap();
    let layout = plan.layout;
    let clusters = (layout.total_sectors - 32 - 2 * layout.sectors_per_fat)
        / layout.sectors_per_cluster as u32;
    let needed = ((clusters as u64 + 2) * 4 + 511) / 512;
    assert_eq!(needed as u32, layout.sectors_per_fat);
}

#[test]
fn small_and_misaligned_devices_are_rejected() {
    let too_small = plan_fat32_format(512 * 999, "X", 0).unwrap_err();
    assert_eq!(too_small.message(), "device too small for FAT32");
    let misaligned = plan_fat32_format(512 * 2000 + 1, "X", 0).unwrap_err();
    assert_eq!(misaligned.message(), "device size must be multiple of 512 bytes");
}

#[test]
fn labels_land_in_the_plan() {
    let plan = plan_fat32_format(128 * 1024 * 1024, "data", 7).unwrap();
    assert_eq!(&plan.volume_label[..], b"DATA       ");
}

#[test]
fn blank_label_writes_no_root_entry() {
    let plan = plan_fat32_format(128 * 1024 * 1024, "", 0).unwrap();
    assert!(plan.label_entry.is_none());
    assert!(plan.volume_label.iter().all(|b| *b == b' '));
}

#[test]
fn long_labels_are_truncated_and_uppercased() {
    let plan = plan_fat32_format(128 * 1024 * 1024, "bootable-media", 0).unwrap();
    assert_eq!(&plan.volume_label[..], b"BOOTABLE-ME");
}
