use hxa::enums::HXAMetaDataType;
use hxa::wire::MAX_META_DEPTH;
use hxa::{ByteCursor, HXAError, HXAMeta};

fn header(name: &str, tag: u8, length: u32) -> Vec<u8> {
    let mut out = vec![name.len() as u8];
    out.extend_from_slice(name.as_bytes());
    out.push(tag);
    out.extend_from_slice(&length.to_le_bytes());
    out
}

fn int_entry(name: &str, values: &[i64]) -> Vec<u8> {
    let mut out = header(name, 0, values.len() as u32);
    for v in values {
        out.extend_from_slice(&v.to_le_bytes());
    }
    out
}

fn meta_entry(name: &str, children: &[Vec<u8>]) -> Vec<u8> {
    let mut out = header(name, 5, children.len() as u32);
    for c in children {
        out.extend_from_slice(c);
    }
    out
}

fn nested(levels: u32) -> Vec<u8> {
    let mut entry = int_entry("leaf", &[1]);
    for _ in 0..levels {
        entry = meta_entry("m", &[entry]);
    }
    entry
}

fn depth_of(entry: &HXAMeta) -> u32 {
    match &entry.meta_type {
        HXAMetaDataType::META { meta_array } => {
            1 + meta_array.iter().map(depth_of).max().unwrap_or(0)
        }
        _ => 0,
    }
}

fn parse(bytes: Vec<u8>) -> (Result<HXAMeta, HXAError>, usize) {
    let mut cursor = ByteCursor::new(bytes);
    let mut entry = HXAMeta::new();
    let r = entry.parse(&mut cursor);
    (r.map(|_| entry), cursor.offset())
}

#[test]
fn new_entry_is_a_placeholder() {
    let entry = HXAMeta::new();
    assert_eq!(entry.name, "MISSING NAME");
    assert_eq!(entry.data_length, 0);
    assert!(matches!(entry.meta_type, HXAMetaDataType::Unknown));
}

#[test]
fn tags_name_their_variants() {
    assert!(matches!(HXAMetaDataType::from(0), HXAMetaDataType::INT64 { int_array } if int_array.is_empty()));
    assert!(matches!(HXAMetaDataType::from(1), HXAMetaDataType::DOUBLE { double_array } if double_array.is_empty()));
    assert!(matches!(HXAMetaDataType::from(2), HXAMetaDataType::NODE));
    assert!(matches!(HXAMetaDataType::from(3), HXAMetaDataType::TEXT { text } if text == "NO TEXT"));
    assert!(matches!(HXAMetaDataType::from(4), HXAMetaDataType::BINARY));
    assert!(matches!(HXAMetaDataType::from(5), HXAMetaDataType::META { meta_array } if meta_array.is_empty()));
    assert!(matches!(HXAMetaDataType::from(6), HXAMetaDataType::COUNT));
    assert!(matches!(HXAMetaDataType::from(7), HXAMetaDataType::Unknown));
    assert!(matches!(HXAMetaDataType::from(255), HXAMetaDataType::Unknown));
}

#[test]
fn int64_entry() {
    let bytes = int_entry("ints", &[3, -4, i64::MIN]);
    let len = bytes.len();
    let (r, end) = parse(bytes);
    let entry = r.unwrap();
    assert_eq!(end, len);
    assert_eq!(entry.name, "ints");
    assert_eq!(entry.data_length, 3);
    match entry.meta_type {
        HXAMetaDataType::INT64 { int_array } => assert_eq!(int_array, vec![3, -4, i64::MIN]),
        other => panic!("unexpected {:?}", other),
    }
}

#[test]
fn double_entry_keeps_the_bit_patterns() {
    let mut bytes = header("d", 1, 2);
    bytes.extend_from_slice(&0.5f64.to_le_bytes());
    bytes.extend_from_slice(&(-1e300f64).to_le_bytes());
    let (r, _) = parse(bytes);
    match r.unwrap().meta_type {
        HXAMetaDataType::DOUBLE { double_array } => {
            let values: Vec<f64> = double_array.iter().map(|b| f64::from_bits(*b)).collect();
            assert_eq!(values, vec![0.5, -1e300]);
        }
        other => panic!("unexpected {:?}", other),
    }
}

#[test]
fn text_entry_length_counts_bytes() {
    let text = "naïve";
    let mut bytes = header("t", 3, text.len() as u32);
    bytes.extend_from_slice(text.as_bytes());
    let len = bytes.len();
    let (r, end) = parse(bytes);
    let entry = r.unwrap();
    assert_eq!(end, len);
    assert_eq!(entry.data_length, 6);
    match entry.meta_type {
        HXAMetaDataType::TEXT { text: decoded } => assert_eq!(decoded, text),
        other => panic!("unexpected {:?}", other),
    }
}

#[test]
fn invalid_text_is_refused() {
    let mut bytes = header("t", 3, 2);
    bytes.extend_from_slice(&[0xc3, 0x28]);
    let (r, end) = parse(bytes);
    assert_eq!(r.err(), Some(HXAError::InvalidUtf8));
    assert_eq!(end, 7);
}

#[test]
fn invalid_name_is_refused() {
    let mut bytes = vec![2, 0xff, 0xfe, 0];
    bytes.extend_from_slice(&0u32.to_le_bytes());
    let (r, end) = parse(bytes);
    assert_eq!(r.err(), Some(HXAError::InvalidUtf8));
    assert_eq!(end, 1);
}

#[test]
fn markers_have_no_payload() {
    for tag in [2u8, 4, 6, 7, 200] {
        let mut bytes = header("marker", tag, 1000);
        let len = bytes.len();
        bytes.extend_from_slice(&[9, 9, 9]);
        let (r, end) = parse(bytes);
        let entry = r.unwrap();
        assert_eq!(end, len);
        assert_eq!(entry.data_length, 1000);
        match (tag, entry.meta_type) {
            (2, HXAMetaDataType::NODE) => {}
            (4, HXAMetaDataType::BINARY) => {}
            (6, HXAMetaDataType::COUNT) => {}
            (7, HXAMetaDataType::Unknown) => {}
            (200, HXAMetaDataType::Unknown) => {}
            (_, other) => panic!("unexpected {:?}", other),
        }
    }
}

#[test]
fn meta_entry_with_two_int_children() {
    let bytes = meta_entry("parent", &[int_entry("a", &[10]), int_entry("b", &[-20])]);
    let (r, _) = parse(bytes);
    let entry = r.unwrap();
    assert_eq!(entry.data_length, 2);
    match entry.meta_type {
        HXAMetaDataType::META { meta_array } => {
            assert_eq!(meta_array.len(), 2);
            assert_eq!(meta_array[0].name, "a");
            assert_eq!(meta_array[1].name, "b");
            match (&meta_array[0].meta_type, &meta_array[1].meta_type) {
                (
                    HXAMetaDataType::INT64 { int_array: a },
                    HXAMetaDataType::INT64 { int_array: b },
                ) => {
                    assert_eq!(a, &vec![10]);
                    assert_eq!(b, &vec![-20]);
                }
                other => panic!("unexpected {:?}", other),
            }
        }
        other => panic!("unexpected {:?}", other),
    }
}

fn check_lengths(entry: &HXAMeta) {
    match &entry.meta_type {
        HXAMetaDataType::INT64 { int_array } => {
            assert_eq!(int_array.len(), entry.data_length as usize)
        }
        HXAMetaDataType::DOUBLE { double_array } => {
            assert_eq!(double_array.len(), entry.data_length as usize)
        }
        HXAMetaDataType::TEXT { text } => assert_eq!(text.len(), entry.data_length as usize),
        HXAMetaDataType::META { meta_array } => {
            assert_eq!(meta_array.len(), entry.data_length as usize);
            for child in meta_array {
                check_lengths(child);
            }
        }
        _ => {}
    }
}

#[test]
fn nested_entries_have_their_declared_lengths() {
    let mut text = header("t", 3, 2);
    text.extend_from_slice(b"ok");
    let tree = meta_entry(
        "root",
        &[
            meta_entry(
                "level1",
                &[
                    meta_entry("level2", &[int_entry("x", &[1, 2, 3]), text.clone()]),
                    meta_entry("empty", &[]),
                    int_entry("y", &[]),
                ],
            ),
            header("count", 6, 5),
            meta_entry("level1b", &[meta_entry("level2b", &[meta_entry("level3", &[text])])]),
        ],
    );
    let len = tree.len();
    let (r, end) = parse(tree);
    let entry = r.unwrap();
    assert_eq!(end, len);
    assert_eq!(depth_of(&entry), 4);
    check_lengths(&entry);
}

#[test]
fn nesting_up_to_the_limit_is_decoded() {
    let (r, _) = parse(nested(MAX_META_DEPTH));
    let entry = r.unwrap();
    assert_eq!(depth_of(&entry), MAX_META_DEPTH);
}

#[test]
fn nesting_beyond_the_limit_is_refused() {
    let (r, _) = parse(nested(MAX_META_DEPTH + 1));
    assert_eq!(r.err(), Some(HXAError::RecursionLimitExceeded));
    let (r, _) = parse(nested(1000));
    assert_eq!(r.err(), Some(HXAError::RecursionLimitExceeded));
}

#[test]
fn decode_with_an_explicit_depth() {
    let mut cursor = ByteCursor::new(nested(2));
    assert_eq!(HXAMeta::decode(&mut cursor, 1).err(), Some(HXAError::RecursionLimitExceeded));
    let mut cursor = ByteCursor::new(nested(2));
    assert_eq!(depth_of(&HXAMeta::decode(&mut cursor, 2).unwrap()), 2);
    let mut cursor = ByteCursor::new(int_entry("flat", &[1]));
    assert!(HXAMeta::decode(&mut cursor, 0).is_ok());
    let mut cursor = ByteCursor::new(meta_entry("empty", &[]));
    assert_eq!(HXAMeta::decode(&mut cursor, 0).err(), Some(HXAError::RecursionLimitExceeded));
}

#[test]
fn decode_list_reads_entries_in_order() {
    let mut bytes = int_entry("a", &[1]);
    bytes.extend_from_slice(&int_entry("b", &[2]));
    bytes.extend_from_slice(&int_entry("c", &[3]));
    let mut cursor = ByteCursor::new(bytes.clone());
    let entries = HXAMeta::decode_list(&mut cursor, 3, MAX_META_DEPTH).unwrap();
    let names: Vec<&str> = entries.iter().map(|e| e.name.as_str()).collect();
    assert_eq!(names, vec!["a", "b", "c"]);
    assert_eq!(cursor.remaining(), 0);

    let mut cursor = ByteCursor::new(bytes.clone());
    assert_eq!(HXAMeta::decode_list(&mut cursor, 0, MAX_META_DEPTH).unwrap().len(), 0);
    assert_eq!(cursor.offset(), 0);

    let mut cursor = ByteCursor::new(bytes);
    assert_eq!(
        HXAMeta::decode_list(&mut cursor, 4, MAX_META_DEPTH).err(),
        Some(HXAError::UnexpectedEof)
    );
}

#[test]
fn truncated_entry_is_an_unexpected_eof() {
    let mut text = header("t", 3, 2);
    text.extend_from_slice(b"ok");
    let full = meta_entry("parent", &[int_entry("a", &[10, 11]), text]);
    for cut in 0..full.len() {
        let (r, _) = parse(full[..cut].to_vec());
        assert_eq!(r.err(), Some(HXAError::UnexpectedEof), "cut at {}", cut);
    }
    assert!(parse(full).0.is_ok());
}

#[test]
fn failed_parse_leaves_the_entry_as_it_was() {
    let mut cursor = ByteCursor::new(int_entry("first", &[1]));
    let mut entry = HXAMeta::new();
    entry.parse(&mut cursor).unwrap();
    let mut short = ByteCursor::new(int_entry("second", &[1, 2])[..12].to_vec());
    assert_eq!(entry.parse(&mut short), Err(HXAError::UnexpectedEof));
    assert_eq!(entry.name, "first");
    assert_eq!(entry.data_length, 1);
}
