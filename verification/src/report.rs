//! Scan reports: a scan result stamped with its schema version and time.
use vstd::prelude::*;
use crate::domain::ScanResult;

verus! {

pub const SCAN_REPORT_SCHEMA_VERSION: u32 = 1;

#[derive(Debug, Clone)]
pub struct ScanReport {
    pub schema_version: u32,
    pub generated_at_unix_seconds: u64,
    pub result: ScanResult,
}

/// Seconds since the Unix epoch, 0 for a clock set before it.
///
/// Trusted: `SystemTime::now` and `duration_since(UNIX_EPOCH)` of std. The
/// result depends on the clock, so nothing is stated of it.
#[verifier::external_body]
fn unix_time_now() -> (t: u64) {
    match std::time::SystemTime::now().duration_since(std::time::UNIX_EPOCH) {
        Ok(elapsed) => elapsed.as_secs(),
        Err(_) => 0,
    }
}

/// The report of a scan taken at `generated_at_unix_seconds`.
pub fn scan_report_at(result: ScanResult, generated_at_unix_seconds: u64) -> (r: ScanReport)
    ensures
        r.schema_version == SCAN_REPORT_SCHEMA_VERSION,
        r.generated_at_unix_seconds == generated_at_unix_seconds,
        r.result == result,
{
    ScanReport { schema_version: SCAN_REPORT_SCHEMA_VERSION, generated_at_unix_seconds, result }
}

/// The report of a scan, stamped with the current time.
pub fn build_scan_report(result: ScanResult) -> (r: ScanReport)
    ensures
        r.schema_version == SCAN_REPORT_SCHEMA_VERSION,
        r.result == result,
{
    let now = unix_time_now();
    scan_report_at(result, now)
}

} // verus!
