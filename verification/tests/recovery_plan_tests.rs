use testdisk::domain::{PartitionResult, PartitionTableType, ScanResult};
use testdisk::recovery_plan::{build_recovery_plan, RecoveryPlanValidationSeverity, RECOVERY_PLAN_SCHEMA_VERSION};

fn partition(index: u32, name: &str, start: u64, end: u64, label: &str, source: &str) -> PartitionResult {
    PartitionResult {
        index,
        name: name.to_string(),
        start_lba: start,
        end_lba: end,
        size_bytes: (end - start + 1) * 512,
        type_label: label.to_string(),
        filesystem: None,
        status: "known".to_string(),
        source: source.to_string(),
        confidence: 950,
        conflict_status: "clear".to_string(),
    }
}

fn scan_result() -> ScanResult {
    ScanResult {
        disk_path: "/tmp/test.img".to_string(),
        disk_size: 1024 * 1024 * 1024,
        partition_table_type: PartitionTableType::Gpt,
        mbr: None,
        gpt: None,
        partitions: vec![partition(1, "System", 2048, 4095, "EFI System", "gpt")],
        lost_partitions: vec![],
        warnings: vec!["scan warning".to_string()],
    }
}

#[test]
fn exports_recovery_plan_deterministically_for_fixed_timestamp() {
    let scan = scan_result();
    let plan = build_recovery_plan(&scan, &scan.partitions, PartitionTableType::Gpt, "0.1.0", 12345).unwrap();

    assert_eq!(plan.schema_version, RECOVERY_PLAN_SCHEMA_VERSION);
    assert_eq!(plan.created_at_unix_seconds, 12345);
    assert_eq!(plan.selected_partitions.len(), 1);
    assert_eq!(plan.before_map.len(), 1);
    assert!(plan.validation.iter().all(|issue| issue.severity != RecoveryPlanValidationSeverity::Error));

    let again = build_recovery_plan(&scan, &scan.partitions, PartitionTableType::Gpt, "0.1.0", 12345).unwrap();
    assert_eq!(format!("{:?}", again), format!("{:?}", plan));
}

#[test]
fn rejects_overlapping_mbr_plan() {
    let mut scan = scan_result();
    scan.partition_table_type = PartitionTableType::Mbr;
    let mut data = partition(2, "Data", 3000, 5000, "Linux", "mbr");
    data.size_bytes = 2001 * 512;
    data.confidence = 900;
    scan.partitions.push(data);
    let err = build_recovery_plan(&scan, &scan.partitions, PartitionTableType::Mbr, "0.1.0", 12345).unwrap_err();
    assert!(err.iter().any(|issue| issue.code == "overlap"));
}

#[test]
fn rejects_partitions_past_the_end_of_the_disk() {
    let mut scan = scan_result();
    scan.disk_size = 3000 * 512;
    let err = build_recovery_plan(&scan, &scan.partitions, PartitionTableType::Gpt, "0.1.0", 1).unwrap_err();
    assert!(err.iter().any(|issue| issue.severity == RecoveryPlanValidationSeverity::Error));
}

#[test]
fn accepted_plans_keep_selection_order_by_start() {
    let mut scan = scan_result();
    scan.partitions = vec![
        partition(2, "Data", 8192, 16383, "Linux filesystem", "gpt"),
        partition(1, "System", 2048, 4095, "EFI System", "gpt"),
    ];
    let plan = build_recovery_plan(&scan, &scan.partitions, PartitionTableType::Gpt, "0.1.0", 7).unwrap();
    assert_eq!(plan.selected_partitions[0].start_lba, 2048);
    assert_eq!(plan.selected_partitions[1].start_lba, 8192);
    assert_eq!(plan.app_version, "0.1.0");
}

#[test]
fn empty_selection_maps_every_scanned_partition_after() {
    let mut scan = scan_result();
    scan.partitions.push(partition(2, "Data", 8192, 9999, "Linux filesystem", "gpt"));
    let plan = build_recovery_plan(&scan, &Vec::new(), PartitionTableType::Gpt, "0.1.0", 7).unwrap();
    assert_eq!(plan.selected_partitions.len(), 2);
    assert_eq!(plan.after_map.len(), 2);
    assert_eq!(plan.after_map[0].label, "1:System");
    assert_eq!(plan.after_map[0].start_lba, 2048);
    assert_eq!(plan.after_map[1].label, "2:Data");
    assert_eq!(plan.after_map[1].end_lba, 9999);
}
