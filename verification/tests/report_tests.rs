use testdisk::domain::{PartitionTableType, ScanResult};
use testdisk::report::{build_scan_report, scan_report_at, SCAN_REPORT_SCHEMA_VERSION};

fn result() -> ScanResult {
    ScanResult {
        disk_path: "/tmp/sample.img".to_string(),
        disk_size: 1024,
        partition_table_type: PartitionTableType::Unknown,
        mbr: None,
        gpt: None,
        partitions: vec![],
        lost_partitions: vec![],
        warnings: vec!["sample warning".to_string()],
    }
}

#[test]
fn exports_scan_report_with_stable_schema_version() {
    let report = build_scan_report(result());
    assert_eq!(report.schema_version, 1);
    assert_eq!(report.result.disk_path, "/tmp/sample.img");
    assert_eq!(report.result.warnings, vec!["sample warning".to_string()]);
}

#[test]
fn report_keeps_the_given_time() {
    let report = scan_report_at(result(), 12345);
    assert_eq!(report.schema_version, SCAN_REPORT_SCHEMA_VERSION);
    assert_eq!(report.generated_at_unix_seconds, 12345);
}
