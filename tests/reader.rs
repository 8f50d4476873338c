use ebml_reader::reader::{Step, TagReader};
use ebml_reader::tag::{decode_leaf, DataType, DecodeError, Tag};

const EBML: u64 = 0x1A45DFA3;
const VERSION: u64 = 0x4286;
const SIGNED: u64 = 0x4287;
const TITLE: u64 = 0x7BA9;
const DURATION: u64 = 0x4489;
const BLOB: u64 = 0xA3;
const CLUSTER: u64 = 0x1F43B675;

fn kind_of(id: u64) -> Option<DataType> {
    match id {
        EBML | CLUSTER => Some(DataType::Master),
        VERSION => Some(DataType::UnsignedInt),
        SIGNED => Some(DataType::Integer),
        TITLE => Some(DataType::Utf8),
        DURATION => Some(DataType::Float),
        BLOB => Some(DataType::Binary),
        _ => None,
    }
}

fn child_of(parent: u64, id: u64) -> bool {
    match parent {
        EBML => id != EBML && id != CLUSTER,
        CLUSTER => id == BLOB,
        _ => false,
    }
}

/// Runs a reader over `bytes`, handing it at most `chunk` bytes at a time.
fn decode(bytes: &[u8], chunk: usize) -> Vec<String> {
    let mut reader = TagReader::new();
    let mut out = Vec::new();
    let mut pos = 0;
    for _ in 0..10_000 {
        match reader.next() {
            Step::Emit(tag) => out.push(format!("{:?}", tag)),
            Step::Done => return out,
            Step::Failed(e) => {
                out.push(format!("error {:?}", e));
                return out;
            }
            Step::NeedBytes(_) => {
                if pos == bytes.len() {
                    reader.end_of_source();
                } else {
                    let end = (pos + chunk).min(bytes.len());
                    reader.supply(&bytes[pos..end]);
                    pos = end;
                }
            }
            Step::Describe { id, parent } => {
                let child = parent.map(|p| child_of(p, id)).unwrap_or(true);
                reader.describe(kind_of(id), child);
            }
        }
    }
    panic!("reader did not finish");
}

fn start(id: u64) -> String {
    format!("{:?}", Tag::MasterStart { id })
}

fn end(id: u64) -> String {
    format!("{:?}", Tag::MasterEnd { id })
}

fn uint(id: u64, value: u64) -> String {
    format!("{:?}", Tag::UnsignedInt { id, value })
}

const ONE_LEAF: [u8; 9] = [0x1A, 0x45, 0xDF, 0xA3, 0x84, 0x42, 0x86, 0x81, 0x05];

#[test]
fn known_master_with_one_unsigned_leaf() {
    assert_eq!(decode(&ONE_LEAF, 64), vec![start(EBML), uint(VERSION, 5), end(EBML)]);
}

#[test]
fn one_byte_chunks_give_the_same_tags() {
    let bytes = [
        0x1A, 0x45, 0xDF, 0xA3, 0x8A, // EBML, 10 bytes
        0x42, 0x86, 0x81, 0x01, // version 1
        0x1F, 0x43, 0xB6, 0x75, 0x80, // empty cluster inside
        0x1F, 0x43, 0xB6, 0x75, 0x83, 0xA3, 0x81, 0x07, // cluster with one blob
    ];
    let whole = decode(&bytes, bytes.len());
    assert_eq!(whole.len(), 8);
    for chunk in 1..bytes.len() {
        assert_eq!(decode(&bytes, chunk), whole);
    }
}

#[test]
fn unknown_size_container_closes_before_a_sibling() {
    let bytes = [
        0x1A, 0x45, 0xDF, 0xA3, 0xFF, // EBML, unknown size
        0x42, 0x86, 0x81, 0x02, // version 2, a child
        0x42, 0x86, 0x81, 0x03, // version 3, a child
        0x1F, 0x43, 0xB6, 0x75, 0x80, // cluster: not a child of EBML
    ];
    assert_eq!(
        decode(&bytes, 3),
        vec![start(EBML), uint(VERSION, 2), uint(VERSION, 3), end(EBML), start(CLUSTER), end(CLUSTER)]
    );
}

#[test]
fn unknown_size_container_closes_before_a_sibling_leaf() {
    let bytes = [
        0x1F, 0x43, 0xB6, 0x75, 0xFF, // cluster, unknown size
        0x42, 0x86, 0x81, 0x09, // version: not a child of a cluster
    ];
    assert_eq!(decode(&bytes, 64), vec![start(CLUSTER), end(CLUSTER), uint(VERSION, 9)]);
}

#[test]
fn open_containers_drain_innermost_first_at_end() {
    let bytes = [
        0x1A, 0x45, 0xDF, 0xA3, 0xFF, // EBML, unknown size
        0x1A, 0x45, 0xDF, 0xA3, 0x01, 0xFF, 0xFF, 0xFF, 0xFF, 0xFF, 0xFF, 0xFF, // EBML, eight-byte unknown size, known child
    ];
    // The inner EBML is no child of the outer one: the outer closes first.
    assert_eq!(decode(&bytes, 64), vec![start(EBML), end(EBML), start(EBML), end(EBML)]);
    let nested = [
        0x1F, 0x43, 0xB6, 0x75, 0xA0, // cluster, 32 bytes declared, never delivered
        0x1A, 0x45, 0xDF, 0xA3, 0xFF, // EBML inside it, unknown size
    ];
    assert_eq!(decode(&nested, 2), vec![start(CLUSTER), start(EBML), end(EBML), end(CLUSTER)]);
}

#[test]
fn malformed_vint_is_corrupted_data() {
    assert_eq!(decode(&[0x00, 0x81], 64), vec![format!("error {:?}", DecodeError::MalformedVint)]);
    assert_eq!(decode(&[0x42, 0x86, 0x00], 64), vec![format!("error {:?}", DecodeError::MalformedVint)]);
}

#[test]
fn unknown_size_leaf_is_corrupted_data() {
    assert_eq!(
        decode(&[0x42, 0x86, 0xFF, 0x01], 64),
        vec![format!("error {:?}", DecodeError::UnknownSizeLeaf { id: VERSION })]
    );
}

#[test]
fn truncated_header_and_payload() {
    assert_eq!(decode(&[0x1A, 0x45], 64), vec![format!("error {:?}", DecodeError::TruncatedHeader)]);
    assert_eq!(decode(&[0x42, 0x86], 64), vec![format!("error {:?}", DecodeError::TruncatedHeader)]);
    assert_eq!(
        decode(&[0x42, 0x86, 0x82, 0x01], 64),
        vec![format!("error {:?}", DecodeError::TruncatedPayload { id: VERSION })]
    );
}

#[test]
fn empty_source_ends_at_once() {
    assert!(decode(&[], 64).is_empty());
}

#[test]
fn payload_types() {
    let bytes = [
        0x42, 0x87, 0x82, 0xFF, 0xFE, // signed -2
        0x7B, 0xA9, 0x83, 0x68, 0xC3, 0xA9, // "hé"
        0x44, 0x89, 0x84, 0x3F, 0x80, 0x00, 0x00, // float 1.0
        0xA3, 0x82, 0x01, 0x02, // blob
        0xEC, 0x81, 0x00, // unknown id
        0x42, 0x86, 0x80, // empty unsigned
    ];
    assert_eq!(
        decode(&bytes, 5),
        vec![
            format!("{:?}", Tag::Integer { id: SIGNED, value: -2 }),
            format!("{:?}", Tag::Utf8 { id: TITLE, value: String::from("hé") }),
            format!("{:?}", Tag::Float { id: DURATION, data: vec![0x3F, 0x80, 0, 0] }),
            format!("{:?}", Tag::Binary { id: BLOB, data: vec![1, 2] }),
            format!("{:?}", Tag::Raw { id: 0xEC, data: vec![0] }),
            uint(VERSION, 0),
        ]
    );
}

#[test]
fn payload_errors() {
    assert_eq!(
        decode(&[0x44, 0x89, 0x83, 1, 2, 3], 64),
        vec![format!("error {:?}", DecodeError::FloatWidth { id: DURATION, len: 3 })]
    );
    assert_eq!(
        decode(&[0x42, 0x86, 0x89, 1, 2, 3, 4, 5, 6, 7, 8, 9], 64),
        vec![format!("error {:?}", DecodeError::IntegerTooWide { id: VERSION, len: 9 })]
    );
    assert_eq!(
        decode(&[0x7B, 0xA9, 0x82, 0xC3, 0x28], 64),
        vec![format!("error {:?}", DecodeError::InvalidUtf8 { id: TITLE, bytes: vec![0xC3, 0x28] })]
    );
}

#[test]
fn decode_leaf_values() {
    match decode_leaf(Some(DataType::Integer), SIGNED, vec![0x80, 0, 0, 0, 0, 0, 0, 0]) {
        Ok(Tag::Integer { value, .. }) => assert_eq!(value, i64::MIN),
        other => panic!("{:?}", other),
    }
    match decode_leaf(Some(DataType::Integer), SIGNED, vec![0x7F, 0xFF]) {
        Ok(Tag::Integer { value, .. }) => assert_eq!(value, 0x7FFF),
        other => panic!("{:?}", other),
    }
    match decode_leaf(Some(DataType::UnsignedInt), VERSION, vec![0xFF; 8]) {
        Ok(Tag::UnsignedInt { value, .. }) => assert_eq!(value, u64::MAX),
        other => panic!("{:?}", other),
    }
    match decode_leaf(Some(DataType::Utf8), TITLE, vec![0x61, 0x62]) {
        Ok(Tag::Utf8 { value, .. }) => assert_eq!(value, "ab"),
        other => panic!("{:?}", other),
    }
    match decode_leaf(Some(DataType::Utf8), TITLE, vec![]) {
        Ok(Tag::Utf8 { value, .. }) => assert_eq!(value, ""),
        other => panic!("{:?}", other),
    }
}

#[test]
fn offset_counts_consumed_bytes() {
    let mut reader = TagReader::new();
    reader.supply(&ONE_LEAF);
    assert_eq!(reader.buffered(), 9);
    assert!(matches!(reader.next(), Step::Describe { id: EBML, parent: None }));
    assert_eq!(reader.current_offset(), 5);
    reader.describe(Some(DataType::Master), true);
    assert!(matches!(reader.next(), Step::Emit(Tag::MasterStart { id: EBML })));
    assert!(matches!(reader.next(), Step::Describe { id: VERSION, parent: None }));
    reader.describe(Some(DataType::UnsignedInt), false);
    assert!(matches!(reader.next(), Step::Emit(Tag::UnsignedInt { id: VERSION, value: 5 })));
    assert_eq!(reader.current_offset(), 9);
    assert!(matches!(reader.next(), Step::Emit(Tag::MasterEnd { id: EBML })));
    assert!(matches!(reader.next(), Step::NeedBytes(1)));
    reader.end_of_source();
    assert!(matches!(reader.next(), Step::Done));
}
