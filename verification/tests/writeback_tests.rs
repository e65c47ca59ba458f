use testdisk::domain::{AccessCapability, DiskInfo, DiskKind, DiskSource, PartitionTableType, TargetSafety};
use testdisk::writeback::{
    apply_writeback_plan, build_guarded_writeback_plan, checksum_hex, hex_decode, restore_writeback_backup,
    target_signature, BackupManifest, BackupSector, WritebackError, WritebackPlan, WritebackSectorPatch,
};

fn sample_target(path: &str) -> DiskInfo {
    DiskInfo {
        path: path.to_string(),
        display_path: path.to_string(),
        raw_path: path.to_string(),
        platform_id: "image-001".to_string(),
        name: "fixture".to_string(),
        size_bytes: 1024,
        readable: true,
        writable: true,
        source: DiskSource::ImageFile,
        kind: DiskKind::Image,
        safety: TargetSafety::Image,
        access: AccessCapability::ReadWrite,
        protocol: None,
        is_internal: None,
        is_removable: None,
    }
}

fn fixture() -> Vec<u8> {
    let mut bytes = vec![0u8; 1024];
    bytes[..16].copy_from_slice(b"ORIGINAL-SECTOR_");
    bytes
}

fn hex_encode(bytes: &[u8]) -> String {
    bytes.iter().map(|byte| format!("{byte:02x}")).collect()
}

#[test]
fn rejects_unsafe_physical_targets() {
    let target = DiskInfo {
        path: "/dev/disk9".to_string(),
        display_path: "/dev/disk9".to_string(),
        raw_path: "/dev/rdisk9".to_string(),
        platform_id: "disk9".to_string(),
        name: "physical".to_string(),
        size_bytes: 1024,
        readable: true,
        writable: true,
        source: DiskSource::System,
        kind: DiskKind::Physical,
        safety: TargetSafety::External,
        access: AccessCapability::ReadWrite,
        protocol: None,
        is_internal: Some(false),
        is_removable: Some(true),
    };
    let patch = WritebackSectorPatch { lba: 0, before_hex: "00".to_string(), after_hex: "00".to_string() };
    let err =
        build_guarded_writeback_plan(&target, PartitionTableType::Mbr, "/tmp/backup.json".to_string(), vec![patch])
            .unwrap_err();
    assert!(matches!(err, WritebackError::UnsafeTarget(_)));
}

#[test]
fn applies_and_restores_sector_patch_with_transcript() {
    let original = fixture();
    let mut image = original.clone();
    let target = sample_target("/tmp/testdisk-writeback.img");
    let patch = WritebackSectorPatch {
        lba: 0,
        before_hex: hex_encode(&original),
        after_hex: {
            let mut bytes = original.clone();
            bytes[..16].copy_from_slice(b"UPDATED-SECTOR__");
            hex_encode(&bytes)
        },
    };
    let plan = build_guarded_writeback_plan(
        &target,
        PartitionTableType::Mbr,
        "/tmp/testdisk-writeback-backup.json".to_string(),
        vec![patch],
    )
    .unwrap();
    let outcome = apply_writeback_plan(&plan, &mut image).unwrap();
    assert_eq!(outcome.transcript.status, "verified");
    assert_eq!(&image[..16], b"UPDATED-SECTOR__");

    let restore = restore_writeback_backup(&plan, &outcome.backup, &mut image).unwrap();
    assert_eq!(restore.status, "restored");
    assert_eq!(&image[..16], b"ORIGINAL-SECTOR_");
    assert_eq!(image, original);
}

#[test]
fn plan_orders_patches_and_fixes_sector_size() {
    let target = sample_target("/tmp/x.img");
    let patches = vec![
        WritebackSectorPatch { lba: 3, before_hex: "0000".to_string(), after_hex: "0102".to_string() },
        WritebackSectorPatch { lba: 1, before_hex: " 0000 ".to_string(), after_hex: "A0b0".to_string() },
    ];
    let plan = build_guarded_writeback_plan(&target, PartitionTableType::Gpt, "b.json".to_string(), patches).unwrap();
    assert_eq!(plan.sector_size_bytes, 2);
    assert_eq!(plan.patches[0].lba, 1);
    assert_eq!(plan.patches[1].lba, 3);
    assert_eq!(plan.target_signature, "/tmp/x.img:1024:image-001");
    assert_eq!(plan.guard_notes, vec!["target_safety=Image".to_string(), "target_access=ReadWrite".to_string()]);
    assert_eq!(target_signature(&target), "/tmp/x.img:1024:image-001");
}

#[test]
fn plan_rejects_bad_patches() {
    let target = sample_target("/tmp/x.img");
    let err = build_guarded_writeback_plan(&target, PartitionTableType::Gpt, "b".to_string(), vec![]).unwrap_err();
    assert!(matches!(err, WritebackError::InvalidPlan(ref m) if m == "write-back plan must include at least one patch"));
    let p = |b: &str, a: &str| WritebackSectorPatch { lba: 7, before_hex: b.to_string(), after_hex: a.to_string() };
    let err = build_guarded_writeback_plan(&target, PartitionTableType::Gpt, "b".to_string(), vec![p("00", "0011")])
        .unwrap_err();
    assert!(matches!(err, WritebackError::InvalidPlan(ref m) if m == "patch at LBA 7 must have equal non-empty before/after bytes"));
    let err = build_guarded_writeback_plan(&target, PartitionTableType::Gpt, "  ".to_string(), vec![p("00", "01")])
        .unwrap_err();
    assert!(matches!(err, WritebackError::InvalidPlan(ref m) if m == "backup path must not be empty"));
    let err = build_guarded_writeback_plan(&target, PartitionTableType::Gpt, "b".to_string(), vec![p("0g", "01")])
        .unwrap_err();
    assert!(matches!(err, WritebackError::InvalidPlan(ref m) if m == "invalid hex digit in payload"));
}

#[test]
fn hex_payloads_decode() {
    assert_eq!(hex_decode(" 0aFf ").unwrap(), vec![0x0a, 0xff]);
    assert!(matches!(hex_decode("abc"), Err(WritebackError::InvalidPlan(ref m)) if m == "hex payload must have an even number of characters"));
    assert!(matches!(hex_decode("é"), Err(WritebackError::InvalidPlan(ref m)) if m == "invalid hex digit in payload"));
    assert_eq!(hex_decode("").unwrap(), Vec::<u8>::new());
}

#[test]
fn mismatched_image_is_left_untouched() {
    let target = sample_target("/tmp/x.img");
    let patch = WritebackSectorPatch { lba: 1, before_hex: "ffff".to_string(), after_hex: "0000".to_string() };
    let plan = build_guarded_writeback_plan(&target, PartitionTableType::Mbr, "b".to_string(), vec![patch]).unwrap();
    let mut image = vec![1u8; 8];
    let before = image.clone();
    assert!(matches!(apply_writeback_plan(&plan, &mut image), Err(WritebackError::PatchMismatch(1))));
    assert_eq!(image, before);
    let mut short = vec![0u8; 3];
    assert!(matches!(apply_writeback_plan(&plan, &mut short), Err(WritebackError::Io(_))));
}

#[test]
fn transcript_checksums_match_crc32() {
    let target = sample_target("/tmp/x.img");
    let patch = WritebackSectorPatch { lba: 0, before_hex: "0000".to_string(), after_hex: "6869".to_string() };
    let plan = build_guarded_writeback_plan(&target, PartitionTableType::Mbr, "b".to_string(), vec![patch]).unwrap();
    let mut image = vec![0u8; 4];
    let outcome = apply_writeback_plan(&plan, &mut image).unwrap();
    assert_eq!(outcome.transcript.bytes_written, 2);
    assert_eq!(outcome.transcript.checksum, format!("{:08x}", crc32fast::hash(b"hi")));
    assert_eq!(outcome.transcript.steps[0].checksum_before, format!("{:08x}", crc32fast::hash(&[0, 0])));
    assert_eq!(checksum_hex(b"hi"), format!("{:08x}", crc32fast::hash(b"hi")));
    assert_eq!(image, b"hi\0\0".to_vec());
    let mut wrong = outcome.backup.clone();
    wrong.target_signature = "other".to_string();
    assert!(matches!(restore_writeback_backup(&plan, &wrong, &mut image), Err(WritebackError::InvalidPlan(_))));
}

fn hand_plan(lba: u64, before: &str, after: &str) -> WritebackPlan {
    WritebackPlan {
        schema_version: 1,
        target_path: "/tmp/x.img".to_string(),
        target_platform_id: "image-001".to_string(),
        target_signature: "sig".to_string(),
        backup_path: "b.json".to_string(),
        partition_table_type: PartitionTableType::Mbr,
        sector_size_bytes: 2,
        patches: vec![WritebackSectorPatch { lba, before_hex: before.to_string(), after_hex: after.to_string() }],
        guard_notes: vec![],
    }
}

#[test]
fn empty_expected_bytes_past_the_end_are_not_read() {
    let plan = hand_plan(5, "", "6869");
    let mut image = vec![7u8; 4];
    let outcome = apply_writeback_plan(&plan, &mut image).unwrap();
    assert_eq!(image, vec![7, 7, 7, 7, 0, 0, 0, 0, 0, 0, b'h', b'i']);
    assert_eq!(outcome.transcript.bytes_written, 2);
    let mut untouched = vec![7u8; 4];
    apply_writeback_plan(&hand_plan(9, "", ""), &mut untouched).unwrap();
    assert_eq!(untouched, vec![7u8; 4]);
}

#[test]
fn restoring_past_the_end_grows_the_image() {
    let plan = hand_plan(0, "0000", "0000");
    let manifest = BackupManifest {
        schema_version: 1,
        target_signature: "sig".to_string(),
        sector_size_bytes: 2,
        sectors: vec![BackupSector { lba: 3, bytes_hex: "abcd".to_string() }],
    };
    let mut image = vec![1u8; 2];
    let t = restore_writeback_backup(&plan, &manifest, &mut image).unwrap();
    assert_eq!(t.restored_sectors, vec![3]);
    assert_eq!(image, vec![1, 1, 0, 0, 0, 0, 0xab, 0xcd]);
}
