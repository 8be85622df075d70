use sim::wire::{parse_fields, push_len_field, push_varint, push_varint_field, read_field, read_varint_from, Field, FieldValue};

#[test]
fn varint_exact_bytes() {
    let mut out = Vec::new();
    push_varint(&mut out, 0);
    assert_eq!(out, vec![0x00]);
    let mut out = Vec::new();
    push_varint(&mut out, 1);
    assert_eq!(out, vec![0x01]);
    let mut out = Vec::new();
    push_varint(&mut out, 127);
    assert_eq!(out, vec![0x7f]);
    let mut out = Vec::new();
    push_varint(&mut out, 128);
    assert_eq!(out, vec![0x80, 0x01]);
    let mut out = Vec::new();
    push_varint(&mut out, 300);
    assert_eq!(out, vec![0xac, 0x02]);
    let mut out = Vec::new();
    push_varint(&mut out, u64::MAX);
    assert_eq!(out, vec![0xff, 0xff, 0xff, 0xff, 0xff, 0xff, 0xff, 0xff, 0xff, 0x01]);
}

#[test]
fn varint_reads_back() {
    for v in [0u64, 1, 127, 128, 300, 16384, 1 << 35, u64::MAX] {
        let mut out = vec![0x55];
        push_varint(&mut out, v);
        out.push(0x99);
        assert_eq!(read_varint_from(&out, 1), Some((v, out.len() - 2)));
    }
}

#[test]
fn varint_rejects_truncated_and_oversized() {
    assert_eq!(read_varint_from(&[], 0), None);
    assert_eq!(read_varint_from(&[0x80], 0), None);
    assert_eq!(read_varint_from(&[0xff, 0xff], 0), None);
    // Eleven bytes is too long.
    let long = [0x80, 0x80, 0x80, 0x80, 0x80, 0x80, 0x80, 0x80, 0x80, 0x80, 0x00];
    assert_eq!(read_varint_from(&long, 0), None);
    // Ten bytes whose value exceeds 64 bits.
    let big = [0xff, 0xff, 0xff, 0xff, 0xff, 0xff, 0xff, 0xff, 0xff, 0x02];
    assert_eq!(read_varint_from(&big, 0), None);
    // A non-minimal encoding is accepted.
    assert_eq!(read_varint_from(&[0x81, 0x00], 0), Some((1, 2)));
}

#[test]
fn fields_exact_bytes() {
    let mut out = Vec::new();
    push_varint_field(&mut out, 2, 1);
    assert_eq!(out, vec![0x10, 0x01]);
    let mut out = Vec::new();
    push_len_field(&mut out, 1, b"ab");
    assert_eq!(out, vec![0x0a, 0x02, b'a', b'b']);
}

#[test]
fn parse_fields_splits_a_message() {
    let bytes = [0x0a, 0x02, b'h', b'i', 0x10, 0x01, 0x1d, 1, 2, 3, 4, 0x21, 1, 2, 3, 4, 5, 6, 7, 8];
    let fs = parse_fields(&bytes).unwrap();
    assert_eq!(
        fs,
        vec![
            Field { tag: 10, value: FieldValue::Bytes(b"hi".to_vec()) },
            Field { tag: 16, value: FieldValue::Varint(1) },
            Field { tag: 29, value: FieldValue::Skipped },
            Field { tag: 33, value: FieldValue::Skipped },
        ]
    );
    assert_eq!(parse_fields(&[]), Some(vec![]));
}

#[test]
fn parse_fields_rejects_malformed_input() {
    // Payload runs past the end.
    assert_eq!(parse_fields(&[0x0a, 0x05, b'a']), None);
    // Field number zero.
    assert_eq!(parse_fields(&[0x02, 0x00]), None);
    // Group wire types.
    assert_eq!(parse_fields(&[0x0b]), None);
    assert_eq!(parse_fields(&[0x0c]), None);
    // Truncated fixed-width value.
    assert_eq!(parse_fields(&[0x0d, 1, 2]), None);
    // Truncated varint value.
    assert_eq!(parse_fields(&[0x08]), None);
    assert_eq!(read_field(&[0x08, 0x96, 0x01], 0), Some((Field { tag: 8, value: FieldValue::Varint(150) }, 3)));
}

#[test]
fn groups_are_skipped_whole() {
    // An empty group, field 4.
    assert_eq!(parse_fields(&[0x23, 0x24]), Some(vec![Field { tag: 35, value: FieldValue::Skipped }]));
    // A group holding a varint, a string and a nested group, then a varint field.
    let bytes = [0x23, 0x08, 0x01, 0x12, 0x01, b'x', 0x2b, 0x2c, 0x24, 0x10, 0x07];
    assert_eq!(
        parse_fields(&bytes),
        Some(vec![
            Field { tag: 35, value: FieldValue::Skipped },
            Field { tag: 16, value: FieldValue::Varint(7) },
        ])
    );
    // A group that is never closed.
    assert_eq!(parse_fields(&[0x23, 0x08, 0x01]), None);
    // A group end with no group open.
    assert_eq!(parse_fields(&[0x24]), None);
}
