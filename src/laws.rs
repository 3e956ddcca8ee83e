//! Laws that relate building a message to walking it.

use vstd::prelude::*;
use crate::attr::{
    attr_size, encodable, encode_attr, lemma_encode_attr_len, lemma_flags_hold_each,
    lemma_stream_monotone, no_false_flag, payload_of,
    stream_of, AttributeValue,
};
use crate::message::{attr_region, header_length, with_length, MAX_MESSAGE};
use crate::stream::{decodable, kind_of, parse_stream};
use crate::wire::{
    aligned, le16, le32, lemma_le16_round_trip, lemma_le32_round_trip, lemma_le64_round_trip, read16,
    read32, zeros,
};
use vstd::utf8::{encode_utf8, encode_utf8_decode_utf8, encode_utf8_valid_utf8};

verus! {

/// The bytes of a message made by `Message::new` and then given `attrs` by `put`, in order.
pub open spec fn message_of(attrs: Seq<(u16, AttributeValue)>) -> Seq<u8> {
    let body = stream_of(attrs, attrs.len());
    with_length(zeros(16) + body, (16 + body.len()) as u32)
}

/// The summed wire sizes of the first `k` attributes of `s`.
pub open spec fn total_size(s: Seq<(u16, AttributeValue)>, k: nat) -> nat
    decreases k,
{
    if k == 0 || k > s.len() {
        0
    } else {
        total_size(s, (k - 1) as nat) + attr_size(s[k - 1].1)
    }
}

/// Type and payload of each attribute of `s`: what a walk over their encoding yields.
pub open spec fn expected_walk(s: Seq<(u16, AttributeValue)>) -> Seq<(u16, Seq<u8>)> {
    s.map_values(|a: (u16, AttributeValue)| (a.0, payload_of(a.1)))
}

/// Whether every attribute of `s` can be sent.
pub open spec fn all_encodable(s: Seq<(u16, AttributeValue)>) -> bool {
    forall|i: int| 0 <= i < s.len() ==> #[trigger] encodable(s[i].1)
}

proof fn lemma_stream_push_prefix(s: Seq<(u16, AttributeValue)>, x: (u16, AttributeValue), k: nat)
    requires
        k <= s.len(),
    ensures
        stream_of(s.push(x), k) == stream_of(s, k),
    decreases k,
{
    if k > 0 {
        lemma_stream_push_prefix(s, x, (k - 1) as nat);
        assert(s.push(x)[k - 1] == s[k - 1]);
    }
}

/// Appending an attribute to a sequence appends its encoding to the stream.
pub proof fn lemma_stream_push(s: Seq<(u16, AttributeValue)>, x: (u16, AttributeValue))
    ensures
        stream_of(s.push(x), s.len() + 1) == stream_of(s, s.len()) + encode_attr(x.0, x.1),
{
    lemma_stream_push_prefix(s, x, s.len());
    assert(s.push(x)[s.len() as int] == x);
}

proof fn lemma_stream_size(s: Seq<(u16, AttributeValue)>, k: nat)
    requires
        k <= s.len(),
    ensures
        stream_of(s, k).len() == total_size(s, k),
        total_size(s, k) % 4 == 0,
    decreases k,
{
    if k > 0 {
        lemma_stream_size(s, (k - 1) as nat);
        lemma_encode_attr_len(s[k - 1].0, s[k - 1].1);
    }
}

proof fn lemma_stream_front(s: Seq<(u16, AttributeValue)>, n: nat)
    requires
        1 <= n <= s.len(),
    ensures
        stream_of(s, n) == encode_attr(s[0].0, s[0].1) + stream_of(s.drop_first(), (n - 1) as nat),
    decreases n,
{
    if n > 1 {
        lemma_stream_front(s, (n - 1) as nat);
        assert(s.drop_first()[n - 2] == s[n - 1]);
        assert(stream_of(s, n) =~= encode_attr(s[0].0, s[0].1) + stream_of(
            s.drop_first(),
            (n - 1) as nat,
        ));
    } else {
        assert(stream_of(s, 0) =~= Seq::<u8>::empty());
        assert(stream_of(s.drop_first(), 0) =~= Seq::<u8>::empty());
        assert(stream_of(s, 1) =~= encode_attr(s[0].0, s[0].1) + stream_of(s.drop_first(), 0));
    }
}

/// A walk over one attribute's encoding followed by other bytes yields that attribute's
/// type and payload, then what the other bytes yield.
pub proof fn lemma_parse_cons(tag: u16, v: AttributeValue, rest: Seq<u8>)
    requires
        encodable(v),
    ensures
        parse_stream(encode_attr(tag, v) + rest) == seq![(tag, payload_of(v))] + parse_stream(rest),
{
    let p = payload_of(v);
    let e = encode_attr(tag, v);
    let b = e + rest;
    lemma_le16_round_trip(p.len() as u16);
    lemma_le16_round_trip(tag);
    lemma_encode_attr_len(tag, v);
    assert(b.subrange(0, 2) =~= le16(p.len() as u16));
    assert(read16(b) == read16(le16(p.len() as u16)));
    assert(b.skip(2).subrange(0, 2) =~= le16(tag));
    assert(read16(b.skip(2)) == read16(le16(tag)));
    assert(read16(b) as nat == p.len());
    assert(b.subrange(4, 4 + p.len() as int) =~= p);
    assert(b.skip((4 + aligned(p.len())) as int) =~= rest);
    assert(parse_stream(b) =~= seq![(tag, payload_of(v))] + parse_stream(rest));
}

/// Walking the encoding of attributes yields their types and payloads in the order they
/// were encoded.
pub proof fn lemma_walk_in_order(s: Seq<(u16, AttributeValue)>)
    requires
        all_encodable(s),
    ensures
        parse_stream(stream_of(s, s.len())) == expected_walk(s),
    decreases s.len(),
{
    if s.len() == 0 {
        assert(parse_stream(Seq::<u8>::empty()) =~= Seq::<(u16, Seq<u8>)>::empty());
        assert(expected_walk(s) =~= Seq::<(u16, Seq<u8>)>::empty());
    } else {
        let t = s.drop_first();
        assert(all_encodable(t)) by {
            assert forall|i: int| 0 <= i < t.len() implies #[trigger] encodable(t[i].1) by {
                assert(t[i] == s[i + 1]);
            }
        }
        lemma_walk_in_order(t);
        lemma_stream_front(s, s.len());
        assert(encodable(s[0].1));
        lemma_parse_cons(s[0].0, s[0].1, stream_of(t, t.len()));
        assert(expected_walk(s) =~= seq![(s[0].0, payload_of(s[0].1))] + expected_walk(t));
    }
}

/// A fresh message is the message built from no attributes.
pub proof fn lemma_new_message()
    ensures
        message_of(Seq::empty()) == with_length(zeros(16), 16),
{
    assert(zeros(16) + Seq::<u8>::empty() =~= zeros(16));
}

/// `put` on a message built from `attrs` gives the message built from `attrs` followed by
/// the new attribute, wherever the total length still fits the header field.
pub proof fn lemma_put_extends(attrs: Seq<(u16, AttributeValue)>, tag: u16, v: AttributeValue)
    requires
        16 + stream_of(attrs, attrs.len()).len() + attr_size(v) <= MAX_MESSAGE,
    ensures
        header_length(message_of(attrs)) == 16 + stream_of(attrs, attrs.len()).len(),
        with_length(
            message_of(attrs) + encode_attr(tag, v),
            (header_length(message_of(attrs)) + attr_size(v)) as u32,
        ) == message_of(attrs.push((tag, v))),
{
    let body = stream_of(attrs, attrs.len());
    let n = (16 + body.len()) as u32;
    lemma_le32_round_trip(n);
    assert(message_of(attrs).subrange(0, 4) =~= le32(n));
    assert(header_length(message_of(attrs)) == read32(le32(n)));
    lemma_stream_push(attrs, (tag, v));
    lemma_encode_attr_len(tag, v);
    assert(with_length(message_of(attrs) + encode_attr(tag, v), (n + attr_size(v)) as u32)
        =~= message_of(attrs.push((tag, v))));
}

/// The length field of a built message is the header size plus the summed wire sizes of
/// its attributes, padding included.
pub proof fn lemma_header_consistency(attrs: Seq<(u16, AttributeValue)>)
    requires
        16 + total_size(attrs, attrs.len()) <= MAX_MESSAGE,
    ensures
        header_length(message_of(attrs)) == 16 + total_size(attrs, attrs.len()),
        message_of(attrs).len() == header_length(message_of(attrs)),
{
    lemma_stream_size(attrs, attrs.len());
    let n = (16 + total_size(attrs, attrs.len())) as u32;
    lemma_le32_round_trip(n);
    assert(message_of(attrs).subrange(0, 4) =~= le32(n));
}

/// Every attribute of a built stream starts at an offset that is a multiple of four: the
/// encodings of the attributes before it, which the stream starts with, fill whole words.
pub proof fn lemma_alignment(attrs: Seq<(u16, AttributeValue)>, k: nat)
    requires
        k <= attrs.len(),
    ensures
        stream_of(attrs, k).len() % 4 == 0,
        stream_of(attrs, k) == stream_of(attrs, attrs.len()).subrange(
            0,
            stream_of(attrs, k).len() as int,
        ),
{
    lemma_stream_size(attrs, k);
    lemma_stream_prefix(attrs, k, attrs.len());
}

proof fn lemma_stream_prefix(s: Seq<(u16, AttributeValue)>, k: nat, n: nat)
    requires
        k <= n <= s.len(),
    ensures
        stream_of(s, k) == stream_of(s, n).subrange(0, stream_of(s, k).len() as int),
    decreases n - k,
{
    if k < n {
        lemma_stream_prefix(s, k, (n - 1) as nat);
        lemma_stream_monotone(s, k, (n - 1) as nat);
        assert(stream_of(s, k) =~= stream_of(s, n).subrange(0, stream_of(s, k).len() as int));
    } else {
        assert(stream_of(s, k) =~= stream_of(s, n).subrange(0, stream_of(s, k).len() as int));
    }
}

/// Walking a built message yields the types and payloads of its attributes in the order
/// they were put.
pub proof fn lemma_message_order(attrs: Seq<(u16, AttributeValue)>)
    requires
        all_encodable(attrs),
        16 + total_size(attrs, attrs.len()) <= MAX_MESSAGE,
    ensures
        parse_stream(attr_region(message_of(attrs))) == expected_walk(attrs),
{
    lemma_header_consistency(attrs);
    lemma_stream_size(attrs, attrs.len());
    let m = message_of(attrs);
    assert(attr_region(m) =~= stream_of(attrs, attrs.len()));
    lemma_walk_in_order(attrs);
}

/// Whether `a` and `b` hold the same value: text and bytes compare by content.
pub open spec fn same_value(a: AttributeValue, b: AttributeValue) -> bool {
    match (a, b) {
        (AttributeValue::String(x), AttributeValue::String(y)) => x@ == y@,
        (AttributeValue::Raw(x), AttributeValue::Raw(y)) => x@ == y@,
        _ => a == b,
    }
}

/// Round trip of a value that is not nested: the walk over its encoding yields one
/// attribute with its type, whose payload reads back, as the value's kind, to that value.
///
/// `r` is any value that `Attribute::decode` may return for that payload and kind.
pub proof fn lemma_round_trip(tag: u16, v: AttributeValue, r: AttributeValue)
    requires
        encodable(v),
        kind_of(v) is Some,
        kind_of(r) == kind_of(v),
        payload_of(r) == payload_of(v),
        no_false_flag(r),
    ensures
        parse_stream(encode_attr(tag, v)) == seq![(tag, payload_of(v))],
        decodable(payload_of(v), kind_of(v)->0),
        same_value(r, v),
{
    lemma_parse_cons(tag, v, Seq::empty());
    assert(encode_attr(tag, v) + Seq::<u8>::empty() =~= encode_attr(tag, v));
    assert(parse_stream(Seq::<u8>::empty()) =~= Seq::<(u16, Seq<u8>)>::empty());
    assert(seq![(tag, payload_of(v))] + Seq::<(u16, Seq<u8>)>::empty() =~= seq![(tag, payload_of(v))]);
    match (r, v) {
        (AttributeValue::U8(x), AttributeValue::U8(y)) => {
            assert(seq![x][0] == seq![y][0]);
        },
        (AttributeValue::U16(x), AttributeValue::U16(y)) => {
            lemma_le16_round_trip(x);
            lemma_le16_round_trip(y);
        },
        (AttributeValue::U32(x), AttributeValue::U32(y)) => {
            lemma_le32_round_trip(x);
            lemma_le32_round_trip(y);
        },
        (AttributeValue::U64(x), AttributeValue::U64(y)) => {
            lemma_le64_round_trip(x);
            lemma_le64_round_trip(y);
        },
        (AttributeValue::Msec(x), AttributeValue::Msec(y)) => {
            lemma_le64_round_trip(x);
            lemma_le64_round_trip(y);
        },
        (AttributeValue::String(x), AttributeValue::String(y)) => {
            let p = payload_of(v);
            assert(p.drop_last() =~= encode_utf8(y@));
            assert(payload_of(r).drop_last() =~= encode_utf8(x@));
            encode_utf8_valid_utf8(y@);
            encode_utf8_decode_utf8(x@);
            encode_utf8_decode_utf8(y@);
        },
        _ => {},
    }
}

/// Round trip of a nested value: the walk over its encoding yields one attribute with its
/// type, and the walk over that payload yields the children's types and payloads in order.
pub proof fn lemma_nested_round_trip(tag: u16, v: AttributeValue)
    requires
        encodable(v),
        v is Nested,
    ensures
        parse_stream(encode_attr(tag, v)) == seq![(tag, payload_of(v))],
        parse_stream(payload_of(v)) == expected_walk(v->Nested_0@),
{
    lemma_parse_cons(tag, v, Seq::empty());
    assert(encode_attr(tag, v) + Seq::<u8>::empty() =~= encode_attr(tag, v));
    assert(parse_stream(Seq::<u8>::empty()) =~= Seq::<(u16, Seq<u8>)>::empty());
    assert(seq![(tag, payload_of(v))] + Seq::<(u16, Seq<u8>)>::empty() =~= seq![(tag, payload_of(v))]);
    let ch = v->Nested_0@;
    assert(all_encodable(ch)) by {
        assert forall|i: int| 0 <= i < ch.len() implies #[trigger] encodable(ch[i].1) by {
            lemma_flags_hold_each(ch, ch.len(), i);
            lemma_stream_monotone(ch, (i + 1) as nat, ch.len());
            lemma_encode_attr_len(ch[i].0, ch[i].1);
        }
    }
    lemma_walk_in_order(ch);
}

} // verus!
