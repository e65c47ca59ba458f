use testdisk::boot_sector::{backup_sector_for, diagnose_boot_sectors, native_commands_for, preview_boot_sector_repair};
use testdisk::disk::DiskReader;

fn fixture() -> Vec<u8> {
    let mut bytes = vec![0u8; 4096];
    bytes[3..11].copy_from_slice(b"NTFS    ");
    bytes[11..13].copy_from_slice(&512u16.to_le_bytes());
    bytes[510..512].copy_from_slice(&0xAA55u16.to_le_bytes());
    let primary = bytes[..512].to_vec();
    bytes[512 * 6..512 * 6 + 512].copy_from_slice(&primary);
    bytes
}

#[test]
fn diagnoses_matching_ntfs_boot_sector() {
    let disk = DiskReader::from_bytes("/tmp/testdisk-boot-sector.img".to_string(), 4096, fixture());
    let diagnosis = diagnose_boot_sectors("/tmp/testdisk-boot-sector.img", &disk).unwrap();
    assert_eq!(diagnosis[0].filesystem, "NTFS");
    assert!(diagnosis[0].matches_backup);
}

#[test]
fn differing_backup_and_repair_preview() {
    let mut bytes = fixture();
    bytes[512 * 6 + 100] = 1;
    let disk = DiskReader::from_bytes("img".to_string(), 4096, bytes);
    let d = diagnose_boot_sectors("img", &disk).unwrap();
    assert!(!d[0].matches_backup);
    assert_eq!(d[0].backup_lba, Some(6));
    assert_eq!(d[0].findings, vec!["primary boot sector differs from backup copy".to_string()]);
    let plans = preview_boot_sector_repair("img", &disk).unwrap();
    assert_eq!(plans.len(), 1);
    assert_eq!(plans[0].native_commands[0].program, "ntfsfix");
    assert_eq!(plans[0].native_commands[0].args, vec!["-n".to_string(), "img".to_string()]);
}

#[test]
fn unknown_sector_gets_no_plan() {
    let disk = DiskReader::from_bytes("z".to_string(), 1024, vec![0u8; 1024]);
    let d = diagnose_boot_sectors("z", &disk).unwrap();
    assert_eq!(d[0].filesystem, "unknown");
    assert_eq!(d[0].confidence, "low");
    assert!(preview_boot_sector_repair("z", &disk).unwrap().is_empty());
    let short = DiskReader::from_bytes("s".to_string(), 100, vec![0u8; 100]);
    assert!(diagnose_boot_sectors("s", &short).is_err());
}

#[test]
fn backup_locations_and_tools() {
    let disk = DiskReader::from_bytes("d".to_string(), 512 * 10, vec![]);
    assert_eq!(backup_sector_for("FAT32", &disk), Some(6));
    assert_eq!(backup_sector_for("ext4", &disk), Some(2));
    assert_eq!(backup_sector_for("APFS", &disk), Some(9));
    assert_eq!(backup_sector_for("ZFS", &disk), None);
    let tiny = DiskReader::from_bytes("t".to_string(), 512 * 4, vec![]);
    assert_eq!(backup_sector_for("NTFS", &tiny), None);
    assert_eq!(native_commands_for("ext3", "/dev/sdb1")[0].program, "fsck");
    assert!(native_commands_for("exFAT", "/dev/sdb1").is_empty());
}
