use testdisk::disk::DiskReader;
use testdisk::domain::PartitionTableType;
use testdisk::scanner::scan_disk;

#[test]
fn test_scan_mbr_image() {
    let mut img = vec![0u8; 4 * 1024 * 1024];
    img[510] = 0x55;
    img[511] = 0xAA;
    let entry_offset = 446;
    img[entry_offset + 4] = 0x0c;
    img[entry_offset + 8..entry_offset + 12].copy_from_slice(&2048u32.to_le_bytes());
    img[entry_offset + 12..entry_offset + 16].copy_from_slice(&2048u32.to_le_bytes());
    let fat_offset = 2048 * 512;
    img[fat_offset + 3..fat_offset + 11].copy_from_slice(b"MSWIN4.1");
    img[fat_offset + 11..fat_offset + 13].copy_from_slice(&512u16.to_le_bytes());
    img[fat_offset + 13] = 8;
    img[fat_offset + 21] = 0xF8;
    img[fat_offset + 510] = 0x55;
    img[fat_offset + 511] = 0xAA;
    let size = img.len() as u64;
    let disk = DiskReader::from_bytes("/tmp/testdisk_test.img".to_string(), size, img);

    let result = scan_disk(&disk).unwrap();
    assert!(matches!(result.partition_table_type, PartitionTableType::Mbr));
    assert!(!result.partitions.is_empty());
    assert!(result.partitions[0].filesystem.is_some());
    assert_eq!(result.partitions[0].confidence, 960);
}

#[test]
fn blank_image_reads_as_unsigned_mbr() {
    let disk = DiskReader::from_bytes("/tmp/zero.img".to_string(), 64 * 1024, vec![0u8; 64 * 1024]);
    let result = scan_disk(&disk).unwrap();
    assert!(matches!(result.partition_table_type, PartitionTableType::Mbr));
    assert!(result.partitions.is_empty());
    assert!(result.warnings.iter().any(|w| w.contains("0x55AA")));
    assert!(result.gpt.is_none());
}

#[test]
fn deep_scan_finds_unlisted_filesystem_on_64k_boundary() {
    let mut img = vec![0u8; 1024 * 1024];
    let fat_offset = 128 * 512;
    img[fat_offset + 3..fat_offset + 11].copy_from_slice(b"MSWIN4.1");
    img[fat_offset + 11..fat_offset + 13].copy_from_slice(&512u16.to_le_bytes());
    img[fat_offset + 13] = 8;
    img[fat_offset + 21] = 0xF8;
    img[fat_offset + 510] = 0x55;
    img[fat_offset + 511] = 0xAA;
    let size = img.len() as u64;
    let disk = DiskReader::from_bytes("/tmp/lost.img".to_string(), size, img);
    let result = scan_disk(&disk).unwrap();
    assert_eq!(result.lost_partitions.len(), 1);
    let lost = &result.lost_partitions[0];
    assert_eq!(lost.start_lba, 128);
    assert_eq!(lost.index, 1);
    assert_eq!(lost.source, "deep_scan");
    assert_eq!(lost.status, "deleted");
    assert!(lost.filesystem.is_some());
}

fn gpt_image(entry_size: u32, first_entry_used: bool) -> Vec<u8> {
    let mut img = vec![0u8; 64 * 512];
    let h = 512;
    img[h..h + 8].copy_from_slice(b"EFI PART");
    img[h + 12..h + 16].copy_from_slice(&92u32.to_le_bytes());
    img[h + 72..h + 80].copy_from_slice(&2u64.to_le_bytes());
    img[h + 80..h + 84].copy_from_slice(&4u32.to_le_bytes());
    img[h + 84..h + 88].copy_from_slice(&entry_size.to_le_bytes());
    if first_entry_used {
        img[1024] = 0x28;
    }
    img
}

#[test]
fn narrow_gpt_entries_are_refused_before_scanning() {
    let ok = DiskReader::from_bytes("a".to_string(), 64 * 512, gpt_image(128, true));
    assert!(testdisk::gpt::gpt_scan_parsable(&ok));
    let unused = DiskReader::from_bytes("b".to_string(), 64 * 512, gpt_image(40, false));
    assert!(testdisk::gpt::gpt_scan_parsable(&unused));
    let narrow = DiskReader::from_bytes("c".to_string(), 64 * 512, gpt_image(40, true));
    assert!(!testdisk::gpt::gpt_scan_parsable(&narrow));
    let result = scan_disk(&unused).unwrap();
    assert!(matches!(result.partition_table_type, PartitionTableType::Gpt));
    assert!(result.partitions.is_empty());
}

#[test]
fn gpt_sizes_past_64_bits_are_refused_before_scanning() {
    let mut far_table = gpt_image(128, false);
    far_table[512 + 72..512 + 80].copy_from_slice(&(u64::MAX / 256).to_le_bytes());
    let far = DiskReader::from_bytes("d".to_string(), 64 * 512, far_table);
    assert!(!testdisk::gpt::gpt_scan_parsable(&far));

    let mut huge_entry = gpt_image(128, true);
    huge_entry[1024 + 32..1024 + 40].copy_from_slice(&1u64.to_le_bytes());
    huge_entry[1024 + 40..1024 + 48].copy_from_slice(&u64::MAX.to_le_bytes());
    let huge = DiskReader::from_bytes("e".to_string(), 64 * 512, huge_entry);
    assert!(!testdisk::gpt::gpt_scan_parsable(&huge));

    let mut fitting_entry = gpt_image(128, true);
    fitting_entry[1024 + 32..1024 + 40].copy_from_slice(&34u64.to_le_bytes());
    fitting_entry[1024 + 40..1024 + 48].copy_from_slice(&63u64.to_le_bytes());
    let fitting = DiskReader::from_bytes("f".to_string(), 64 * 512, fitting_entry);
    assert!(testdisk::gpt::gpt_scan_parsable(&fitting));
    let table = testdisk::gpt::detect_gpt(&fitting).unwrap().unwrap();
    assert_eq!(table.partitions.len(), 1);
    assert_eq!(table.partitions[0].size_bytes, 30 * 512);
}

#[test]
fn short_gpt_reads_fail_with_an_io_error() {
    let tiny = DiskReader::from_bytes("g".to_string(), 512, vec![0u8; 512]);
    match testdisk::gpt::read_gpt(&tiny, 1) {
        Err(testdisk::disk::DiskError::Io(message)) => assert_eq!(message, "failed to fill whole buffer"),
        other => panic!("expected a short read, got {:?}", other.map(|t| t.header_lba)),
    }
    assert!(matches!(testdisk::gpt::detect_gpt(&tiny), Err(testdisk::disk::DiskError::Io(_))));
    assert!(matches!(scan_disk(&tiny), Err(testdisk::disk::DiskError::Io(_))));
}

#[test]
fn empty_gpt_entry_array_past_the_end_reads_as_empty() {
    let mut img = gpt_image(128, false);
    img[512 + 72..512 + 80].copy_from_slice(&1000u64.to_le_bytes());
    img[512 + 80..512 + 84].copy_from_slice(&0u32.to_le_bytes());
    let disk = DiskReader::from_bytes("h".to_string(), 64 * 512, img);
    assert!(disk.read_at(10_000_000, 0).unwrap().is_empty());
    assert!(disk.read_at(10_000_000, 1).is_err());
    let table = testdisk::gpt::read_gpt(&disk, 1).unwrap();
    assert!(table.signature_valid);
    assert!(table.partitions.is_empty());
}
