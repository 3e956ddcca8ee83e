use rsnl::stream::{decode_header, decode_payload};
use rsnl::{encode, AttributeKind, AttributeValue, Message, MessageIterator, NlError};

fn walk(mut it: MessageIterator) -> Vec<(u16, Vec<u8>)> {
    let mut out = Vec::new();
    while let Some(a) = it.next() {
        out.push((a.name(), a.as_raw()));
    }
    out
}

#[test]
fn iterates_over_message_attributes() {
    let names: [u16; 3] = [1, 5, 27];
    let data: [u8; 3] = [8, 9, 22];
    let attr_payload: Vec<_> = data.iter().map(|val| AttributeValue::U8(*val)).collect();

    let mut message = Message::new();

    for (name, payload) in names.iter().zip(attr_payload.iter()) {
        message.put(*name, payload).unwrap();
    }

    let mut it = message.into_iter();
    let mut index = 0;
    while let Some(attr) = it.next() {
        assert_eq!(names[index], attr.name());
        assert_eq!(data[index], attr.as_uint8().unwrap());
        index += 1;
    }
    assert_eq!(index, 3);
}

#[test]
fn single_u8_attribute_sets_length_24() {
    let mut m = Message::new();
    m.put(3, &AttributeValue::U8(5)).unwrap();
    assert_eq!(m.header().length, 24);
    assert_eq!(m.as_bytes().len(), 24);
    let mut it = m.into_iter();
    let a = it.next().unwrap();
    assert_eq!(a.name(), 3);
    assert_eq!(a.as_uint8(), Ok(5));
    assert!(it.next().is_none());
    assert!(it.next().is_none());
}

#[test]
fn three_attributes_keep_their_order() {
    let mut m = Message::new();
    m.put(1, &AttributeValue::U8(8)).unwrap();
    m.put(5, &AttributeValue::U8(9)).unwrap();
    m.put(27, &AttributeValue::U8(22)).unwrap();
    let got = walk(m.into_iter());
    assert_eq!(got, vec![(1, vec![8]), (5, vec![9]), (27, vec![22])]);
}

#[test]
fn wider_read_of_u8_is_width_mismatch() {
    let mut m = Message::new();
    m.put(7, &AttributeValue::U8(200)).unwrap();
    let a = m.into_iter().next().unwrap();
    assert_eq!(a.as_uint32(), Err(NlError::WidthMismatch));
    assert_eq!(a.as_uint16(), Err(NlError::WidthMismatch));
    assert_eq!(a.as_uint64(), Err(NlError::WidthMismatch));
    assert_eq!(a.as_flag(), Err(NlError::WidthMismatch));
}

#[test]
fn new_message_header_is_zero_but_length() {
    let m = Message::new();
    let h = m.header();
    assert_eq!(h.length, 16);
    assert_eq!((h.msg_type, h.flags, h.seq, h.pid), (0, 0, 0, 0));
    assert_eq!(m.as_bytes(), &[16, 0, 0, 0, 0, 0, 0, 0, 0, 0, 0, 0, 0, 0, 0, 0][..]);
    assert!(m.into_iter().next().is_none());
}

#[test]
fn encode_u8_exact_bytes() {
    assert_eq!(encode(3, &AttributeValue::U8(5)).unwrap(), vec![1, 0, 3, 0, 5, 0, 0, 0]);
}

#[test]
fn encode_u16_u32_u64_little_endian() {
    assert_eq!(encode(2, &AttributeValue::U16(0x1234)).unwrap(), vec![2, 0, 2, 0, 0x34, 0x12, 0, 0]);
    assert_eq!(
        encode(9, &AttributeValue::U32(0x0102_0304)).unwrap(),
        vec![4, 0, 9, 0, 4, 3, 2, 1]
    );
    assert_eq!(
        encode(1, &AttributeValue::U64(0x0102_0304_0506_0708)).unwrap(),
        vec![8, 0, 1, 0, 8, 7, 6, 5, 4, 3, 2, 1]
    );
    assert_eq!(
        encode(1, &AttributeValue::Msec(1000)).unwrap(),
        vec![8, 0, 1, 0, 0xe8, 0x03, 0, 0, 0, 0, 0, 0]
    );
}

#[test]
fn encode_string_is_nul_terminated_and_padded() {
    assert_eq!(
        encode(4, &AttributeValue::String("abc".to_string())).unwrap(),
        vec![4, 0, 4, 0, b'a', b'b', b'c', 0]
    );
    assert_eq!(
        encode(4, &AttributeValue::String("ab".to_string())).unwrap(),
        vec![3, 0, 4, 0, b'a', b'b', 0, 0]
    );
}

#[test]
fn encode_true_flag_is_empty() {
    assert_eq!(encode(6, &AttributeValue::Flag(true)).unwrap(), vec![0, 0, 6, 0]);
}

#[test]
fn false_flag_is_refused() {
    assert_eq!(encode(6, &AttributeValue::Flag(false)).err(), Some(NlError::FalseFlag));
    let mut m = Message::new();
    assert_eq!(m.put(6, &AttributeValue::Flag(false)), Err(NlError::FalseFlag));
    assert_eq!(m.header().length, 16);
    assert_eq!(m.as_bytes().len(), 16);
}

#[test]
fn false_flag_inside_nested_is_refused() {
    let v = AttributeValue::Nested(vec![(1, AttributeValue::U8(1)), (2, AttributeValue::Flag(false))]);
    let mut m = Message::new();
    assert_eq!(m.put(9, &v), Err(NlError::FalseFlag));
}

#[test]
fn oversized_payload_is_refused() {
    let mut m = Message::new();
    assert_eq!(m.put(1, &AttributeValue::Raw(vec![0; 65536])), Err(NlError::PayloadTooLong));
    assert_eq!(m.as_bytes().len(), 16);
    assert!(m.put(1, &AttributeValue::Raw(vec![7; 65535])).is_ok());
    assert_eq!(m.header().length, 16 + 4 + 65536);
}

#[test]
fn oversized_nested_is_refused() {
    let big = AttributeValue::Raw(vec![0; 40000]);
    let v = AttributeValue::Nested(vec![(1, big), (2, AttributeValue::Raw(vec![0; 40000]))]);
    assert_eq!(encode(3, &v).err(), Some(NlError::PayloadTooLong));
}

#[test]
fn round_trip_every_kind() {
    let cases: Vec<(AttributeValue, AttributeKind)> = vec![
        (AttributeValue::Raw(vec![1, 2, 3, 4, 5]), AttributeKind::Raw),
        (AttributeValue::U8(0xfe), AttributeKind::U8),
        (AttributeValue::U16(0xbeef), AttributeKind::U16),
        (AttributeValue::U32(0xdead_beef), AttributeKind::U32),
        (AttributeValue::U64(u64::MAX - 1), AttributeKind::U64),
        (AttributeValue::String("eth0 é".to_string()), AttributeKind::String),
        (AttributeValue::Flag(true), AttributeKind::Flag),
        (AttributeValue::Msec(123_456), AttributeKind::Msec),
    ];
    let mut m = Message::new();
    for (i, (v, _)) in cases.iter().enumerate() {
        m.put(i as u16 + 10, v).unwrap();
    }
    let mut it = m.into_iter();
    for (i, (v, k)) in cases.iter().enumerate() {
        let a = it.next().unwrap();
        assert_eq!(a.name(), i as u16 + 10);
        let back = a.decode(*k).unwrap();
        assert_eq!(format!("{:?}", back), format!("{:?}", v));
    }
    assert!(it.next().is_none());
}

#[test]
fn nested_round_trip() {
    let v = AttributeValue::Nested(vec![
        (1, AttributeValue::U32(77)),
        (2, AttributeValue::String("x".to_string())),
        (3, AttributeValue::Nested(vec![(4, AttributeValue::U8(9))])),
    ]);
    let mut m = Message::new();
    m.put(20, &v).unwrap();
    // children: 8 + 8 + (4 + 8) = 28 bytes of payload
    assert_eq!(m.header().length, 16 + 4 + 28);
    let outer = m.into_iter().next().unwrap();
    assert_eq!(outer.name(), 20);
    let mut kids = outer.nested();
    let a = kids.next().unwrap();
    assert_eq!((a.name(), a.as_uint32()), (1, Ok(77)));
    let b = kids.next().unwrap();
    assert_eq!((b.name(), b.as_string()), (2, Ok("x".to_string())));
    let c = kids.next().unwrap();
    assert_eq!(c.name(), 3);
    let inner = walk(c.nested());
    assert_eq!(inner, vec![(4, vec![9])]);
    assert!(kids.next().is_none());
}

#[test]
fn repeated_tags_are_all_kept() {
    let mut m = Message::new();
    m.put(2, &AttributeValue::U8(1)).unwrap();
    m.put(2, &AttributeValue::U8(2)).unwrap();
    assert_eq!(walk(m.into_iter()), vec![(2, vec![1]), (2, vec![2])]);
}

#[test]
fn every_start_offset_is_aligned() {
    let mut m = Message::new();
    m.put(1, &AttributeValue::Raw(vec![1])).unwrap();
    m.put(2, &AttributeValue::Raw(vec![1, 2, 3, 4, 5])).unwrap();
    m.put(3, &AttributeValue::String("hello".to_string())).unwrap();
    m.put(4, &AttributeValue::U16(1)).unwrap();
    let b = m.as_bytes().to_vec();
    let mut off = 16;
    let mut starts = Vec::new();
    while off < b.len() {
        starts.push(off - 16);
        let n = u16::from_le_bytes([b[off], b[off + 1]]) as usize;
        off += 4 + (n + 3) / 4 * 4;
    }
    assert_eq!(starts, vec![0, 8, 20, 32]);
    assert!(starts.iter().all(|s| s % 4 == 0));
}

#[test]
fn header_length_sums_aligned_sizes() {
    let mut m = Message::new();
    m.put(1, &AttributeValue::Raw(vec![1, 2, 3])).unwrap();
    m.put(2, &AttributeValue::U64(5)).unwrap();
    m.put(3, &AttributeValue::Flag(true)).unwrap();
    assert_eq!(m.header().length, 16 + 8 + 12 + 4);
    assert_eq!(m.header().length as usize, m.as_bytes().len());
}

#[test]
fn truncated_buffers_yield_a_prefix() {
    let mut m = Message::new();
    m.put(1, &AttributeValue::U32(1)).unwrap();
    m.put(2, &AttributeValue::U8(2)).unwrap();
    m.put(3, &AttributeValue::Raw(vec![1, 2, 3, 4, 5, 6])).unwrap();
    let full = m.as_bytes().to_vec();
    let all = walk(Message::from_bytes(&full).unwrap().into_iter());
    assert_eq!(all.len(), 3);
    for cut in 16..=full.len() {
        let got = walk(Message::from_bytes(&full[..cut]).unwrap().into_iter());
        assert!(got.len() <= all.len());
        assert_eq!(&got[..], &all[..got.len()]);
    }
    let got = walk(Message::from_bytes(&full[..16 + 8 + 7]).unwrap().into_iter());
    assert_eq!(got, vec![(1, vec![1, 0, 0, 0])]);
}

#[test]
fn declared_length_past_payload_ends_walk() {
    // header says 28 bytes; the attribute claims 200 payload bytes
    let mut b = vec![28, 0, 0, 0, 0, 0, 0, 0, 0, 0, 0, 0, 0, 0, 0, 0];
    b.extend_from_slice(&[200, 0, 1, 0, 1, 2, 3, 4, 5, 6, 7, 8]);
    let mut it = Message::from_bytes(&b).unwrap().into_iter();
    assert!(it.next().is_none());
    assert!(it.next().is_none());
}

#[test]
fn short_buffer_is_header_too_short() {
    assert_eq!(Message::from_bytes(&[0u8; 15]).err(), Some(NlError::HeaderTooShort));
    assert!(Message::from_bytes(&[0u8; 16]).is_ok());
}

#[test]
fn string_without_nul_is_invalid() {
    let mut m = Message::new();
    m.put(1, &AttributeValue::Raw(vec![b'a', b'b'])).unwrap();
    m.put(2, &AttributeValue::Raw(vec![0xff, 0])).unwrap();
    let mut it = m.into_iter();
    assert_eq!(it.next().unwrap().as_string(), Err(NlError::InvalidString));
    assert_eq!(it.next().unwrap().as_string(), Err(NlError::InvalidString));
}

#[test]
fn set_header_fields_keeps_length() {
    let mut m = Message::new();
    m.put(1, &AttributeValue::U8(1)).unwrap();
    m.set_header_fields(0x10, 0x5, 7, 99);
    let h = m.header();
    assert_eq!((h.length, h.msg_type, h.flags, h.seq, h.pid), (24, 0x10, 0x5, 7, 99));
}

#[test]
fn decode_header_reads_type_and_length() {
    let b = [0xaa, 5, 0, 9, 1, 0xff];
    assert_eq!(decode_header(&b, 1), Ok((0x0109, 5, 5)));
    assert_eq!(decode_header(&b, 3), Err(NlError::TruncatedHeader));
    assert_eq!(decode_header(&b, 7), Err(NlError::TruncatedHeader));
}

#[test]
fn decode_payload_checks_bounds() {
    let b = [1, 2, 3, 4, 5];
    assert_eq!(decode_payload(&b, 1, 3), Ok(vec![2, 3, 4]));
    assert_eq!(decode_payload(&b, 5, 0), Ok(vec![]));
    assert_eq!(decode_payload(&b, 3, 3), Err(NlError::PayloadTooShort));
    assert_eq!(decode_payload(&b, 9, 0), Err(NlError::PayloadTooShort));
}

#[test]
fn walk_after_sub_header() {
    // a 5-byte sub-header, padded to 8, precedes the attributes
    let mut b = vec![36, 0, 0, 0, 0, 0, 0, 0, 0, 0, 0, 0, 0, 0, 0, 0];
    b.extend_from_slice(&[9, 9, 9, 9, 9, 0, 0, 0]);
    b.extend_from_slice(&encode(4, &AttributeValue::U32(7)).unwrap());
    let got = walk(Message::from_bytes(&b).unwrap().into_iter_after(5));
    assert_eq!(got, vec![(4, vec![7, 0, 0, 0])]);
    let none = walk(Message::from_bytes(&b).unwrap().into_iter_after(40));
    assert!(none.is_empty());
}
