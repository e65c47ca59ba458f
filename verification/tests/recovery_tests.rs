use testdisk::disk::DiskReader;
use testdisk::recovery::{
    check_recovery_destination, recovered_file_record, recovery_transcript, sanitize_fat_name, scan_fat_deleted_files,
    RecoveryError,
};

#[test]
fn rejects_same_source_and_destination() {
    let err = check_recovery_destination("/tmp/a.img", "/tmp/a.img").unwrap_err();
    assert!(matches!(err, RecoveryError::InvalidDestination(_)));
    assert!(check_recovery_destination("/tmp/a.img", "/tmp/out").is_ok());
}

fn fat_volume() -> Vec<u8> {
    let mut v = vec![0u8; 64 * 512];
    v[11..13].copy_from_slice(&512u16.to_le_bytes());
    v[13] = 1;
    v[14..16].copy_from_slice(&1u16.to_le_bytes());
    v[16] = 2;
    v[17..19].copy_from_slice(&512u16.to_le_bytes());
    v[22..24].copy_from_slice(&1u16.to_le_bytes());
    // Root directory at sector 3, 32 sectors long; the data area starts at sector 35.
    let root = 3 * 512;
    let mut entry = [0u8; 32];
    entry[0] = 0xE5;
    entry[1..11].copy_from_slice(b"ELLO   TXT");
    entry[11] = 0x20;
    entry[26..28].copy_from_slice(&2u16.to_le_bytes());
    entry[28..32].copy_from_slice(&5u32.to_le_bytes());
    v[root..root + 32].copy_from_slice(&entry);
    let mut live = entry;
    live[0] = b'A';
    v[root + 32..root + 64].copy_from_slice(&live);
    let mut lfn = entry;
    lfn[11] = 0x0F;
    v[root + 64..root + 96].copy_from_slice(&lfn);
    let mut unnamed = entry;
    unnamed[1..11].copy_from_slice(&[0xE9; 10]);
    v[root + 96..root + 128].copy_from_slice(&unnamed);
    let data = 35 * 512;
    v[data..data + 5].copy_from_slice(b"hello");
    v
}

#[test]
fn recovers_deleted_root_entries() {
    let disk = DiskReader::from_bytes("vol.img".to_string(), 64 * 512, fat_volume());
    let (files, err) = scan_fat_deleted_files(&disk);
    assert!(err.is_none());
    assert_eq!(files.len(), 2);
    assert_eq!(files[0].file_name, "ELLO.TXT");
    assert_eq!(files[0].bytes, b"hello".to_vec());
    assert_eq!(files[1].file_name, "recovered-2.bin");
}

#[test]
fn unreadable_data_stops_the_scan() {
    let mut v = fat_volume();
    v[3 * 512 + 28..3 * 512 + 32].copy_from_slice(&100000u32.to_le_bytes());
    let disk = DiskReader::from_bytes("vol.img".to_string(), 64 * 512, v);
    let (files, err) = scan_fat_deleted_files(&disk);
    assert!(files.is_empty());
    assert!(matches!(err, Some(RecoveryError::Disk(_))));
}

#[test]
fn names_keep_only_safe_characters() {
    assert_eq!(sanitize_fat_name(b"AB C_-.\xff9"), "ABC_-9");
    let r = recovered_file_record("vol.img", "/out/A.TXT".to_string(), 5);
    assert!(r.deleted);
    assert_eq!(r.note, "FAT metadata recovery");
    let t = recovery_transcript("vol.img", "/out", vec![r]);
    assert_eq!(t.status, "completed");
    assert_eq!(t.recovered_files.len(), 1);
}
