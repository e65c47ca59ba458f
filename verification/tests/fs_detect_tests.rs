use testdisk::fs_detect::detect_filesystem;

fn boot_sector(oem: &[u8; 8], media: u8, sectors_per_cluster: u8) -> Vec<u8> {
    let mut data = vec![0u8; 512];
    data[3..11].copy_from_slice(oem);
    data[11..13].copy_from_slice(&512u16.to_le_bytes());
    data[13] = sectors_per_cluster;
    data[21] = media;
    data[510] = 0x55;
    data[511] = 0xAA;
    data
}

#[test]
fn real_ntfs_boot_sector_is_ntfs() {
    let info = detect_filesystem(&boot_sector(b"NTFS    ", 0xF8, 8)).unwrap();
    assert_eq!(info.fs_type, "NTFS");
    assert_eq!(info.details, "Bytes per sector: 512");
}

#[test]
fn fat_boot_sector_is_still_fat() {
    let mut data = boot_sector(b"MSWIN4.1", 0xF8, 4);
    data[66] = 0x29;
    let info = detect_filesystem(&data).unwrap();
    assert_eq!(info.fs_type, "FAT16");
}
