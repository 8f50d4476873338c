use ebml_reader::payload::{be_i64, be_u64};
use ebml_reader::schema::{is_child_by_path, PathStep};
use ebml_reader::vint::{all_ones_of, read_vint, width_of, Vint};

#[test]
fn vint_widths_and_values() {
    assert_eq!(read_vint(&[0x81], 0), Vint::Complete { value: 1, raw: 0x81, width: 1 });
    assert_eq!(read_vint(&[0x40, 0x02], 0), Vint::Complete { value: 2, raw: 0x4002, width: 2 });
    assert_eq!(read_vint(&[0xAA, 0x1A, 0x45, 0xDF, 0xA3], 1), Vint::Complete { value: 0x0A45DFA3, raw: 0x1A45DFA3, width: 4 });
    assert_eq!(
        read_vint(&[0x01, 0xFF, 0xFF, 0xFF, 0xFF, 0xFF, 0xFF, 0xFF], 0),
        Vint::Complete { value: 0x00FF_FFFF_FFFF_FFFF, raw: 0x01FF_FFFF_FFFF_FFFF, width: 8 }
    );
    assert_eq!(read_vint(&[0x00, 0x81], 0), Vint::Malformed);
    assert_eq!(read_vint(&[0x40], 0), Vint::Incomplete);
    assert_eq!(read_vint(&[0x81], 1), Vint::Incomplete);
    assert_eq!(width_of(0x10), 4);
    assert_eq!(width_of(0), 0);
    assert_eq!(all_ones_of(1), 0x7F);
    assert_eq!(all_ones_of(2), 0x3FFF);
}

#[test]
fn big_endian_integers() {
    assert_eq!(be_u64(&[]), 0);
    assert_eq!(be_u64(&[0x01, 0x00]), 256);
    assert_eq!(be_i64(&[]), 0);
    assert_eq!(be_i64(&[0xFF]), -1);
    assert_eq!(be_i64(&[0x80]), -128);
    assert_eq!(be_i64(&[0xFF, 0xFF, 0xFF, 0xFF, 0xFF, 0xFF, 0xFF, 0xFF]), -1);
}

#[test]
fn child_relation_by_path() {
    assert!(is_child_by_path(7, &[PathStep::Id(1), PathStep::Id(7)]));
    assert!(!is_child_by_path(1, &[PathStep::Id(1), PathStep::Id(7)]));
    assert!(is_child_by_path(9, &[PathStep::Global { min: Some(1), max: None }]));
    assert!(!is_child_by_path(9, &[]));
}

#[test]
fn identifier_writes_back_to_its_bytes() {
    let headers: [&[u8]; 4] = [&[0xA3], &[0x42, 0x86], &[0x2A, 0xD7, 0xB1], &[0x1A, 0x45, 0xDF, 0xA3]];
    for bytes in headers {
        match read_vint(bytes, 0) {
            Vint::Complete { raw, width, .. } => {
                assert_eq!(width, bytes.len());
                assert_eq!(&raw.to_be_bytes()[8 - width..], bytes);
            }
            other => panic!("{:?}", other),
        }
    }
}
