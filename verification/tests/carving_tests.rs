use testdisk::carving::{
    builtin_carving_families, carve_regions, carved_file_name, carved_file_record, carving_transcript, find_bytes,
};

#[test]
fn carves_png_signature_fixture() {
    let mut bytes = vec![0u8; 256];
    bytes[32..40].copy_from_slice(b"\x89PNG\r\n\x1a\n");
    bytes[64..68].copy_from_slice(b"IEND");
    bytes[68..80].copy_from_slice(&[0, 0, 0, 0, b'I', b'E', b'N', b'D', 0, 0, 0, 0]);
    let regions = carve_regions(&bytes, &vec!["png".to_string()]);
    assert_eq!(regions.len(), 1);
    assert_eq!(regions[0].start, 32);
    assert_eq!(regions[0].end, 76);
}

#[test]
fn finds_markers_from_a_position() {
    let h = b"abcabc";
    assert_eq!(find_bytes(h, b"bc", 0), Some(1));
    assert_eq!(find_bytes(h, b"bc", 2), Some(4));
    assert_eq!(find_bytes(h, b"bc", 5), None);
    assert_eq!(find_bytes(h, b"", 0), None);
    assert_eq!(find_bytes(b"a", b"ab", 0), None);
}

#[test]
fn carves_every_family_in_order() {
    let mut bytes = vec![0u8; 200];
    bytes[10..13].copy_from_slice(&[0xFF, 0xD8, 0xFF]);
    bytes[20..22].copy_from_slice(&[0xFF, 0xD9]);
    bytes[100..105].copy_from_slice(b"%PDF-");
    bytes[150..155].copy_from_slice(b"%%EOF");
    let regions = carve_regions(&bytes, &vec![]);
    assert_eq!(regions.len(), 2);
    assert_eq!((regions[0].family_id.as_str(), regions[0].start, regions[0].end), ("jpeg", 10, 22));
    assert_eq!((regions[1].family_id.as_str(), regions[1].start, regions[1].end), ("pdf", 100, 155));
    assert!(carve_regions(&bytes, &vec!["png".to_string()]).is_empty());
}

#[test]
fn names_records_and_transcript() {
    assert_eq!(carved_file_name("jpeg", 0x1f), "jpeg-0000001f.jpg");
    assert_eq!(carved_file_name("zip", 16), "zip-00000010.bin");
    let r = carved_file_record("png", "/out/png-00000020.png".to_string(), 32, 44);
    assert_eq!(r.status, "carved");
    let t = carving_transcript("/src.bin", "/out", 256, vec![r]);
    assert_eq!(t.state.source_signature, "/src.bin:256");
    assert_eq!(t.state.offset, 256);
    assert_eq!(t.status, "completed");
    let families = builtin_carving_families();
    assert_eq!(families.len(), 3);
    assert_eq!(families[0].extensions, vec!["jpg".to_string(), "jpeg".to_string()]);
}
