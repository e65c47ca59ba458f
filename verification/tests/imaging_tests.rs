use testdisk::imaging::{imaging_transcript, triage_from_signals, ImagingTriageSignal};

#[test]
fn images_fixture_and_records_checksum() {
    let data = b"imaging fixture";
    let transcript = imaging_transcript(
        "/tmp/testdisk-image-source.bin",
        "/tmp/testdisk-image-output.bin",
        data.len() as u64,
        crc32fast::hash(data),
        0,
        0,
    );
    assert_eq!(transcript.bytes_copied, 15);
    assert!(!transcript.checksum.is_empty());
    assert_eq!(transcript.checksum, format!("{:08x}", crc32fast::hash(data)));
    assert_eq!(transcript.throughput_bytes_per_sec, 15);
    assert_eq!(transcript.state.source_signature, "/tmp/testdisk-image-source.bin:15");
}

#[test]
fn throughput_divides_by_elapsed_seconds() {
    let t = imaging_transcript("a", "b", 1000, 0xdeadbeef, 2, 4);
    assert_eq!(t.throughput_bytes_per_sec, 250);
    assert_eq!(t.checksum, "deadbeef");
    assert_eq!(t.read_errors, 2);
}

#[test]
fn triage_recommends_imaging_on_risk() {
    let quiet = ImagingTriageSignal { smart_failure: false, repeated_read_errors: false, identity_changed: false, throughput_drop: false };
    assert!(!triage_from_signals(&quiet).recommended);
    let slow = ImagingTriageSignal { throughput_drop: true, ..quiet };
    let r = triage_from_signals(&slow);
    assert!(r.recommended);
    assert_eq!(r.reason, "scan speed drop suggests imaging before repair");
    let failing = ImagingTriageSignal { smart_failure: true, throughput_drop: true, ..quiet };
    assert_eq!(triage_from_signals(&failing).reason, "image-first workflow is recommended");
}

#[test]
fn image_copy_counts_and_checksums_every_chunk() {
    let mut copy = testdisk::imaging::ImageCopy::new();
    copy.feed(b"hel");
    copy.feed(b"lo");
    assert_eq!(copy.copied(), 5);
    let t = copy.finish("/dev/sdz", "/tmp/out.img", 0, 0);
    assert_eq!(t.bytes_copied, 5);
    assert_eq!(t.checksum, "3610a686");
    assert_eq!(t.state.checksum, "3610a686");
    assert_eq!(t.state.source_signature, "/dev/sdz:5");
    assert_eq!(t.throughput_bytes_per_sec, 5);
}

#[test]
fn image_output_must_differ_from_source() {
    assert!(testdisk::imaging::check_imaging_output("/dev/sdz", "/tmp/out.img").is_ok());
    assert!(matches!(
        testdisk::imaging::check_imaging_output("/dev/sdz", "/dev/sdz"),
        Err(testdisk::imaging::ImagingError::InvalidState(_))
    ));
}
