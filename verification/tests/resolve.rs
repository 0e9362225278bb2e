use rjvm::error::Error;
use rjvm::parse::constant_pool::Class;
use rjvm::parse::constant_pool::ConstantKind;
use rjvm::parse::constant_pool::ConstantPool;
use rjvm::parse::constant_pool::Error as PoolError;
use rjvm::parse::constant_pool::FieldRef;
use rjvm::parse::constant_pool::MethodRef;
use rjvm::parse::constant_pool::NameAndType;
use rjvm::parse::constant_pool::StringConstant;
use rjvm::parse::constant_pool::Utf8;
use rjvm::parse::error::Error as ParseError;
use rjvm::parse::raw::Constant;
use rjvm::parse;

fn example_bytes() -> Vec<u8> {
    vec![
        0xCA, 0xFE, 0xBA, 0xBE, 0x00, 0x00, 0x00, 0x34, 0x00, 0x03, 0x01, 0x00, 0x03, 0x66,
        0x6F, 0x6F, 0x07, 0x00, 0x01,
    ]
}

fn pool_error(err: PoolError) -> Error {
    Error::Parse(ParseError::ConstantPool(err))
}

#[test]
fn end_to_end_example() {
    let class = rjvm::parse(&example_bytes()).unwrap();
    assert_eq!(class.magic, parse::Magic(0xCAFE_BABE));
    assert_eq!(class.version, parse::Version(52, 0));
    assert_eq!(
        class.constant_pool,
        ConstantPool {
            classes: vec![Class { name_index: 0 }],
            field_refs: vec![],
            method_refs: vec![],
            strings: vec![],
            name_and_types: vec![],
            utf8s: vec![Utf8 { bytes: String::from("foo") }],
        }
    );
}

#[test]
fn parsing_twice_yields_identical_results() {
    let bytes = example_bytes();
    assert_eq!(rjvm::parse(&bytes), rjvm::parse(&bytes));

    let mut broken = bytes.clone();
    broken[10] = 0xFF;
    assert_eq!(rjvm::parse(&broken), rjvm::parse(&broken));
}

#[test]
fn truncation_surfaces_through_parse() {
    let bytes = vec![
        0xCA, 0xFE, 0xBA, 0xBE, 0x00, 0x00, 0x00, 0x34, 0x00, 0x03, 0x01, 0x00, 0x03, 0x66,
        0x6F,
    ];
    let err = rjvm::parse(&bytes).unwrap_err();
    assert_eq!(
        err,
        Error::ParseRaw(rjvm::parse::raw::Error::Cursor(rjvm::cursor::Error::ReadPastEnd {
            tried: 3,
            left: 2,
        }))
    );
}

#[test]
fn unknown_tag_surfaces_through_parse() {
    let mut bytes = example_bytes();
    bytes[10] = 0xFF;
    let err = rjvm::parse(&bytes).unwrap_err();
    assert_eq!(err, Error::ParseRaw(rjvm::parse::raw::Error::UnexpectedConstantTag(255)));
}

#[test]
fn class_naming_a_non_utf8_slot_is_a_kind_mismatch() {
    // Count 3; entry 1 = Class naming slot 2, entry 2 = Class naming slot 1:
    // each name reference lands on a Class record, not a Utf8 record.
    let bytes = vec![
        0xCA, 0xFE, 0xBA, 0xBE, 0x00, 0x00, 0x00, 0x34, 0x00, 0x03, 0x07, 0x00, 0x02, 0x07,
        0x00, 0x01,
    ];
    let err = rjvm::parse(&bytes).unwrap_err();
    assert_eq!(
        err,
        pool_error(PoolError::UnexpectedConstantKind {
            expected: ConstantKind::Utf8,
            actual: ConstantKind::Class,
        })
    );
}

#[test]
fn raw_index_zero_is_out_of_range() {
    // Count 2; the single Class entry names raw index 0, the reserved slot.
    let bytes = vec![
        0xCA, 0xFE, 0xBA, 0xBE, 0x00, 0x00, 0x00, 0x34, 0x00, 0x02, 0x07, 0x00, 0x00,
    ];
    let err = rjvm::parse(&bytes).unwrap_err();
    assert_eq!(err, pool_error(PoolError::OutOfRangeIndex(usize::MAX)));
}

#[test]
fn raw_index_at_count_is_out_of_range() {
    // Count 3; the Class entry names raw index 3 == constant_pool_count.
    let bytes = vec![
        0xCA, 0xFE, 0xBA, 0xBE, 0x00, 0x00, 0x00, 0x34, 0x00, 0x03, 0x01, 0x00, 0x03, 0x66,
        0x6F, 0x6F, 0x07, 0x00, 0x03,
    ];
    let err = rjvm::parse(&bytes).unwrap_err();
    assert_eq!(err, pool_error(PoolError::OutOfRangeIndex(2)));
}

#[test]
fn dual_index_record_may_not_reference_the_final_slot() {
    // Count 3; entry 1 = Utf8 "a", entry 2 = NameAndType whose descriptor
    // names raw index 2, the final slot: legal for a single-index record,
    // out of range for a dual-index one.
    let bytes = vec![
        0xCA, 0xFE, 0xBA, 0xBE, 0x00, 0x00, 0x00, 0x34, 0x00, 0x03, 0x01, 0x00, 0x01, 0x61,
        0x0C, 0x00, 0x01, 0x00, 0x02,
    ];
    let err = rjvm::parse(&bytes).unwrap_err();
    assert_eq!(err, pool_error(PoolError::OutOfRangeIndex(1)));
}

#[test]
fn invalid_utf8_payload_fails_to_decode() {
    // 0xFF can begin no UTF-8 encoding.
    let bytes = vec![
        0xCA, 0xFE, 0xBA, 0xBE, 0x00, 0x00, 0x00, 0x34, 0x00, 0x02, 0x01, 0x00, 0x01, 0xFF,
    ];
    let err = rjvm::parse(&bytes).unwrap_err();
    assert_eq!(err, pool_error(PoolError::Utf8DecodeError));
}

#[test]
fn utf8_failure_wins_over_later_reference_checks() {
    // Entry 1 = Class with an out-of-range name, entry 2 = invalid Utf8:
    // the Utf8 pass runs first, so its error is the one reported.
    let bytes = vec![
        0xCA, 0xFE, 0xBA, 0xBE, 0x00, 0x00, 0x00, 0x34, 0x00, 0x03, 0x07, 0x00, 0x00, 0x01,
        0x00, 0x01, 0xFF,
    ];
    let err = rjvm::parse(&bytes).unwrap_err();
    assert_eq!(err, pool_error(PoolError::Utf8DecodeError));
}

#[test]
fn forward_reference_resolves() {
    // The Class entry precedes the Utf8 record it names; pass 1 walks the
    // whole sequence before any reference is translated.
    let bytes = vec![
        0xCA, 0xFE, 0xBA, 0xBE, 0x00, 0x00, 0x00, 0x34, 0x00, 0x03, 0x07, 0x00, 0x02, 0x01,
        0x00, 0x01, 0x41,
    ];
    let class = rjvm::parse(&bytes).unwrap();
    assert_eq!(class.constant_pool.classes, vec![Class { name_index: 0 }]);
    assert_eq!(class.constant_pool.utf8s, vec![Utf8 { bytes: String::from("A") }]);
}

#[test]
fn count_zero_resolves_to_an_empty_pool() {
    let bytes = vec![0xCA, 0xFE, 0xBA, 0xBE, 0x00, 0x00, 0x00, 0x34, 0x00, 0x00];
    let class = rjvm::parse(&bytes).unwrap();
    assert_eq!(class.constant_pool, ConstantPool {
        classes: vec![],
        field_refs: vec![],
        method_refs: vec![],
        strings: vec![],
        name_and_types: vec![],
        utf8s: vec![],
    });
}

#[test]
fn full_pool_resolves_every_kind() {
    let bytes = vec![
        0xCA, 0xFE, 0xBA, 0xBE, // magic
        0x00, 0x01, 0x00, 0x34, // minor 1, major 52
        0x00, 0x08, // count 8: seven records follow
        0x01, 0x00, 0x01, 0x41, // slot 1: Utf8 "A"
        0x01, 0x00, 0x01, 0x66, // slot 2: Utf8 "f"
        0x01, 0x00, 0x03, 0x28, 0x29, 0x56, // slot 3: Utf8 "()V"
        0x07, 0x00, 0x01, // slot 4: Class -> "A"
        0x0C, 0x00, 0x02, 0x00, 0x03, // slot 5: NameAndType -> "f", "()V"
        0x09, 0x00, 0x04, 0x00, 0x05, // slot 6: FieldRef -> Class, NameAndType
        0x0A, 0x00, 0x04, 0x00, 0x05, // slot 7: MethodRef -> Class, NameAndType
    ];
    let class = rjvm::parse(&bytes).unwrap();
    assert_eq!(class.version, parse::Version(52, 1));
    assert_eq!(
        class.constant_pool,
        ConstantPool {
            classes: vec![Class { name_index: 0 }],
            field_refs: vec![FieldRef { class_index: 0, name_and_type_index: 0 }],
            method_refs: vec![MethodRef { class_index: 0, name_and_type_index: 0 }],
            strings: vec![],
            name_and_types: vec![NameAndType { name_index: 1, descriptor_index: 2 }],
            utf8s: vec![
                Utf8 { bytes: String::from("A") },
                Utf8 { bytes: String::from("f") },
                Utf8 { bytes: String::from("()V") },
            ],
        }
    );
}

#[test]
fn string_record_resolves_into_utf8s() {
    // Count 3; entry 1 = Utf8 "hi", entry 2 = String naming it.
    let bytes = vec![
        0xCA, 0xFE, 0xBA, 0xBE, 0x00, 0x00, 0x00, 0x34, 0x00, 0x03, 0x01, 0x00, 0x02, 0x68,
        0x69, 0x08, 0x00, 0x01,
    ];
    let class = rjvm::parse(&bytes).unwrap();
    assert_eq!(class.constant_pool.strings, vec![StringConstant { string_index: 0 }]);
    assert_eq!(class.constant_pool.utf8s, vec![Utf8 { bytes: String::from("hi") }]);
}

#[test]
fn second_utf8_record_gets_the_next_index() {
    // Two Utf8 records and a Class naming the second: first-seen order
    // assigns them resolved indices 0 and 1.
    let bytes = vec![
        0xCA, 0xFE, 0xBA, 0xBE, 0x00, 0x00, 0x00, 0x34, 0x00, 0x04, 0x01, 0x00, 0x01, 0x61,
        0x01, 0x00, 0x01, 0x62, 0x07, 0x00, 0x02,
    ];
    let class = rjvm::parse(&bytes).unwrap();
    assert_eq!(class.constant_pool.classes, vec![Class { name_index: 1 }]);
    assert_eq!(
        class.constant_pool.utf8s,
        vec![Utf8 { bytes: String::from("a") }, Utf8 { bytes: String::from("b") }]
    );
}

#[test]
fn resolver_accepts_a_hand_built_pool() {
    let raw = vec![
        Constant::Utf8 { length: 3, bytes: vec![0x66, 0x6F, 0x6F] },
        Constant::Class { name_index: 1 },
    ];
    let resolved = ConstantPool::new(&raw, 3).unwrap();
    assert_eq!(resolved.classes, vec![Class { name_index: 0 }]);
    assert_eq!(resolved.utf8s, vec![Utf8 { bytes: String::from("foo") }]);
}

#[test]
fn resolver_rejects_a_hand_built_out_of_range_reference() {
    let raw = vec![Constant::Class { name_index: 2 }];
    let err = ConstantPool::new(&raw, 2).unwrap_err();
    assert_eq!(err, PoolError::OutOfRangeIndex(1));
}

#[test]
fn parse_class_composes_header_and_pool() {
    let class_file = rjvm::parse_raw_class_file(&example_bytes()).unwrap();
    let class = rjvm::parse_class(class_file).unwrap();
    assert_eq!(class.magic, parse::Magic(0xCAFE_BABE));
    assert_eq!(class.constant_pool.utf8s, vec![Utf8 { bytes: String::from("foo") }]);
}

#[test]
fn non_ascii_utf8_text_decodes() {
    // Utf8 payload "é" (0xC3 0xA9).
    let bytes = vec![
        0xCA, 0xFE, 0xBA, 0xBE, 0x00, 0x00, 0x00, 0x34, 0x00, 0x02, 0x01, 0x00, 0x02, 0xC3,
        0xA9,
    ];
    let class = rjvm::parse(&bytes).unwrap();
    assert_eq!(class.constant_pool.utf8s, vec![Utf8 { bytes: String::from("\u{e9}") }]);
}
