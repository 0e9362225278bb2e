use rjvm::parse::raw::ClassFile;
use rjvm::parse::raw::Constant;
use rjvm::parse::raw::Error;
use rjvm::cursor;

// Magic, minor 0, major 52, count 3; entry 1 = Utf8 "foo", entry 2 = Class
// naming raw slot 1.
fn example_bytes() -> Vec<u8> {
    vec![
        0xCA, 0xFE, 0xBA, 0xBE, 0x00, 0x00, 0x00, 0x34, 0x00, 0x03, 0x01, 0x00, 0x03, 0x66,
        0x6F, 0x6F, 0x07, 0x00, 0x01,
    ]
}

#[test]
fn decodes_example_header_and_pool() {
    let class_file = ClassFile::parse_bytes(&example_bytes()).unwrap();
    assert_eq!(class_file.magic, 0xCAFE_BABE);
    assert_eq!(class_file.minor, 0);
    assert_eq!(class_file.major, 52);
    assert_eq!(class_file.constant_pool_count, 3);
    assert_eq!(
        class_file.constant_pool,
        vec![
            Constant::Utf8 { length: 3, bytes: vec![0x66, 0x6F, 0x6F] },
            Constant::Class { name_index: 1 },
        ]
    );
}

#[test]
fn truncated_utf8_payload_reports_read_past_end() {
    // The example cut short inside the "foo" payload: the decoder wants the
    // 3 payload bytes while only 2 remain.
    let bytes = vec![
        0xCA, 0xFE, 0xBA, 0xBE, 0x00, 0x00, 0x00, 0x34, 0x00, 0x03, 0x01, 0x00, 0x03, 0x66,
        0x6F,
    ];
    let err = ClassFile::parse_bytes(&bytes).unwrap_err();
    assert_eq!(err, Error::Cursor(cursor::Error::ReadPastEnd { tried: 3, left: 2 }));
}

#[test]
fn deleting_a_payload_byte_shifts_the_next_tag() {
    // Removing one payload byte from the middle of the example makes the
    // Utf8 record swallow the following tag byte; the next record then
    // starts at a length byte, 0, which is no known tag.
    let mut bytes = example_bytes();
    bytes.remove(15);
    let err = ClassFile::parse_bytes(&bytes).unwrap_err();
    assert_eq!(err, Error::UnexpectedConstantTag(0));
}

#[test]
fn unknown_tag_is_reported() {
    let mut bytes = example_bytes();
    bytes[10] = 0xFF;
    let err = ClassFile::parse_bytes(&bytes).unwrap_err();
    assert_eq!(err, Error::UnexpectedConstantTag(255));
}

#[test]
fn recognized_but_unimplemented_tag_is_unsupported() {
    // Tag 3 is an Integer record: recognized, not decoded, never skipped.
    let mut bytes = example_bytes();
    bytes[10] = 0x03;
    let err = ClassFile::parse_bytes(&bytes).unwrap_err();
    assert_eq!(err, Error::Unsupported(3));
}

#[test]
fn every_reserved_tag_is_unsupported() {
    for tag in [3u8, 4, 5, 6, 11, 15, 16, 18] {
        let bytes = vec![
            0xCA, 0xFE, 0xBA, 0xBE, 0x00, 0x00, 0x00, 0x34, 0x00, 0x02, tag, 0x00, 0x01,
        ];
        let err = ClassFile::parse_bytes(&bytes).unwrap_err();
        assert_eq!(err, Error::Unsupported(tag));
    }
}

#[test]
fn header_too_short_reports_read_past_end() {
    let bytes = vec![0xCA, 0xFE, 0xBA];
    let err = ClassFile::parse_bytes(&bytes).unwrap_err();
    assert_eq!(err, Error::Cursor(cursor::Error::ReadPastEnd { tried: 4, left: 3 }));
}

#[test]
fn missing_count_reports_read_past_end() {
    let bytes = vec![0xCA, 0xFE, 0xBA, 0xBE, 0x00, 0x00, 0x00, 0x34, 0x00];
    let err = ClassFile::parse_bytes(&bytes).unwrap_err();
    assert_eq!(err, Error::Cursor(cursor::Error::ReadPastEnd { tried: 2, left: 1 }));
}

#[test]
fn count_zero_decodes_an_empty_pool() {
    let bytes = vec![0xCA, 0xFE, 0xBA, 0xBE, 0x00, 0x00, 0x00, 0x34, 0x00, 0x00];
    let class_file = ClassFile::parse_bytes(&bytes).unwrap();
    assert_eq!(class_file.constant_pool_count, 0);
    assert_eq!(class_file.constant_pool, vec![]);
}

#[test]
fn count_one_decodes_an_empty_pool() {
    let bytes = vec![0xCA, 0xFE, 0xBA, 0xBE, 0x00, 0x00, 0x00, 0x34, 0x00, 0x01];
    let class_file = ClassFile::parse_bytes(&bytes).unwrap();
    assert_eq!(class_file.constant_pool_count, 1);
    assert_eq!(class_file.constant_pool, vec![]);
}

#[test]
fn trailing_bytes_are_ignored() {
    let mut bytes = example_bytes();
    bytes.push(0x99);
    let class_file = ClassFile::parse_bytes(&bytes).unwrap();
    assert_eq!(class_file.constant_pool.len(), 2);
}

#[test]
fn all_record_layouts_decode() {
    let bytes = vec![
        0xCA, 0xFE, 0xBA, 0xBE, // magic
        0x00, 0x00, 0x00, 0x34, // versions
        0x00, 0x07, // count 7: six records follow
        0x01, 0x00, 0x01, 0x41, // Utf8 "A"
        0x07, 0x00, 0x01, // Class
        0x08, 0x00, 0x01, // String
        0x09, 0x00, 0x02, 0x00, 0x05, // FieldRef
        0x0A, 0x00, 0x02, 0x00, 0x05, // MethodRef
        0x0C, 0x00, 0x01, 0x00, 0x01, // NameAndType
    ];
    let class_file = ClassFile::parse_bytes(&bytes).unwrap();
    assert_eq!(
        class_file.constant_pool,
        vec![
            Constant::Utf8 { length: 1, bytes: vec![0x41] },
            Constant::Class { name_index: 1 },
            Constant::String { string_index: 1 },
            Constant::FieldRef { class_index: 2, name_and_type_index: 5 },
            Constant::MethodRef { class_index: 2, name_and_type_index: 5 },
            Constant::NameAndType { name_index: 1, descriptor_index: 1 },
        ]
    );
}
