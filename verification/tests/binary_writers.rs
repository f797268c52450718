use rhwp::serializer::byte_writer::ByteWriter;
use rhwp::serializer::header::{serialize_file_header, FileHeader, HwpVersion, FILE_HEADER_SIZE};
use rhwp::serializer::record_writer::{write_record, write_record_from, write_records, Record};

#[test]
fn byte_writer_little_endian_values() {
    let mut w = ByteWriter::new();
    w.write_u8(0xAB).unwrap();
    w.write_u16(0x1234).unwrap();
    w.write_u32(0xDEADBEEF).unwrap();
    w.write_i8(-1).unwrap();
    w.write_i16(-2).unwrap();
    w.write_i32(-3).unwrap();
    assert_eq!(w.position(), 1 + 2 + 4 + 1 + 2 + 4);
    assert_eq!(
        w.as_bytes(),
        &[0xAB, 0x34, 0x12, 0xEF, 0xBE, 0xAD, 0xDE, 0xFF, 0xFE, 0xFF, 0xFD, 0xFF, 0xFF, 0xFF]
    );
}

#[test]
fn byte_writer_hwp_string_is_counted_utf16() {
    let mut w = ByteWriter::new();
    w.write_hwp_string("A가😀").unwrap();
    // 4 UTF-16 units: 'A', '가', and a surrogate pair
    assert_eq!(
        w.into_bytes(),
        vec![4, 0, 0x41, 0x00, 0x00, 0xAC, 0x3D, 0xD8, 0x00, 0xDE]
    );
}

#[test]
fn byte_writer_color_zeros_and_bytes() {
    let mut w = ByteWriter::new();
    w.write_color_ref(0x00FF8000).unwrap();
    w.write_zeros(3).unwrap();
    w.write_bytes(&[9, 8]).unwrap();
    assert_eq!(w.as_bytes(), &[0x00, 0x80, 0xFF, 0x00, 0, 0, 0, 9, 8]);
    w.write_hwp_string("").unwrap();
    assert_eq!(w.position(), 11);
}

#[test]
fn file_header_block_layout() {
    let h = FileHeader {
        version: HwpVersion { major: 5, minor: 1, build: 2, revision: 3 },
        flags: 0x0403_0201,
        raw_data: None,
    };
    let data = serialize_file_header(&h);
    assert_eq!(data.len(), FILE_HEADER_SIZE);
    assert_eq!(&data[..17], b"HWP Document File");
    assert!(data[17..32].iter().all(|&b| b == 0));
    assert_eq!(&data[32..36], &[3, 2, 1, 5]);
    assert_eq!(&data[36..40], &[1, 2, 3, 4]);
    assert!(data[40..].iter().all(|&b| b == 0));
}

#[test]
fn file_header_keeps_original_bytes() {
    let raw = vec![7u8; 256];
    let h = FileHeader {
        version: HwpVersion { major: 5, minor: 0, build: 0, revision: 0 },
        flags: 0,
        raw_data: Some(raw.clone()),
    };
    assert_eq!(serialize_file_header(&h), raw);
}

#[test]
fn record_header_packs_tag_level_size() {
    let bytes = write_record(0x42, 1, &[1, 2, 3]);
    let word = 0x42u32 | (1 << 10) | (3 << 20);
    let mut expected = word.to_le_bytes().to_vec();
    expected.extend_from_slice(&[1, 2, 3]);
    assert_eq!(bytes, expected);
}

#[test]
fn record_with_large_payload_uses_extended_size() {
    let data = vec![5u8; 5000];
    let bytes = write_record(16, 0, &data);
    let word = 16u32 | (0xFFF << 20);
    assert_eq!(&bytes[..4], &word.to_le_bytes());
    assert_eq!(&bytes[4..8], &5000u32.to_le_bytes());
    assert_eq!(bytes.len(), 8 + 5000);
    // exactly 4095 bytes also takes the extended form
    let edge = write_record(1, 2, &vec![0u8; 4095]);
    assert_eq!(&edge[4..8], &4095u32.to_le_bytes());
}

#[test]
fn record_stream_concatenates_records() {
    let a = Record { tag_id: 1, level: 0, data: vec![0xAA] };
    let b = Record { tag_id: 2, level: 3, data: vec![] };
    let mut expected = write_record_from(&a);
    expected.extend(write_record_from(&b));
    assert_eq!(write_records(&[a, b]), expected);
}
