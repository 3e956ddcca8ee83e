//! Attribute values and their encoding as aligned type-length-value records.

use vstd::prelude::*;
use crate::error::NlError;
use crate::wire::{aligned, le16, le32, le64, pad_len, zeros};
use vstd::utf8::encode_utf8;

verus! {

broadcast use vstd::std_specs::vec::group_vec_axioms;

/// The largest payload that the 16-bit attribute length field can declare.
pub const MAX_PAYLOAD: usize = 0xffff;

/// A typed attribute value.
#[derive(Debug)]
pub enum AttributeValue {
    Raw(Vec<u8>),
    U8(u8),
    U16(u16),
    U32(u32),
    U64(u64),
    /// Text; sent as UTF-8 followed by a NUL byte.
    String(String),
    /// Presence flag; only `true` can be sent, with an empty payload.
    Flag(bool),
    /// A duration in milliseconds, sent as 64 bits.
    Msec(u64),
    /// Child attributes, sent as an attribute stream inside the payload.
    Nested(Vec<(u16, AttributeValue)>),
}

/// The payload bytes of a value, before padding.
pub open spec fn payload_of(v: AttributeValue) -> Seq<u8>
    decreases v, 0nat,
{
    match v {
        AttributeValue::Raw(b) => b@,
        AttributeValue::U8(x) => seq![x],
        AttributeValue::U16(x) => le16(x),
        AttributeValue::U32(x) => le32(x),
        AttributeValue::U64(x) => le64(x),
        AttributeValue::String(s) => encode_utf8(s@).push(0u8),
        AttributeValue::Flag(_) => Seq::empty(),
        AttributeValue::Msec(x) => le64(x),
        AttributeValue::Nested(ch) => stream_of(ch@, ch@.len()),
    }
}

/// The encodings of the first `k` attributes of `s`, one after the other.
pub open spec fn stream_of(s: Seq<(u16, AttributeValue)>, k: nat) -> Seq<u8>
    decreases s, k,
{
    if k == 0 || k > s.len() {
        Seq::empty()
    } else {
        stream_of(s, (k - 1) as nat) + encode_attr(s[k - 1].0, s[k - 1].1)
    }
}

/// Wire form of one attribute: payload length, type, payload, zero padding.
pub open spec fn encode_attr(tag: u16, v: AttributeValue) -> Seq<u8>
    decreases v, 1nat,
{
    let p = payload_of(v);
    le16(p.len() as u16) + le16(tag) + p + zeros(pad_len(p.len()))
}

/// Whether no flag set to `false` occurs in `v`, its children included.
pub open spec fn no_false_flag(v: AttributeValue) -> bool
    decreases v,
{
    match v {
        AttributeValue::Flag(b) => b,
        AttributeValue::Nested(ch) => flags_hold(ch@, ch@.len()),
        _ => true,
    }
}

/// Whether no flag set to `false` occurs among the first `k` attributes of `s`.
pub open spec fn flags_hold(s: Seq<(u16, AttributeValue)>, k: nat) -> bool
    decreases s, k,
{
    if k == 0 || k > s.len() {
        true
    } else {
        flags_hold(s, (k - 1) as nat) && no_false_flag(s[k - 1].1)
    }
}

pub proof fn lemma_flags_hold_each(s: Seq<(u16, AttributeValue)>, n: nat, i: int)
    requires
        n <= s.len(),
        0 <= i < n,
        flags_hold(s, n),
    ensures
        no_false_flag(s[i].1),
    decreases n,
{
    if i < n - 1 {
        lemma_flags_hold_each(s, (n - 1) as nat, i);
    }
}

proof fn lemma_child_decreases(v: AttributeValue, i: int)
    requires
        v is Nested,
        0 <= i < v->Nested_0.len(),
    ensures
        decreases_to!(v => v->Nested_0@[i].1),
{
    let ch = v->Nested_0;
    assert(decreases_to!(v => v->Nested_0));
    assert(decreases_to!(ch => ch@));
    assert(decreases_to!(ch@ => ch@[i]));
    assert(decreases_to!(ch@[i] => ch@[i].1));
}

/// Whether `v` can be sent as an attribute.
pub open spec fn encodable(v: AttributeValue) -> bool {
    no_false_flag(v) && payload_of(v).len() <= MAX_PAYLOAD
}

/// Size of one attribute on the wire, its padding included.
pub open spec fn attr_size(v: AttributeValue) -> nat {
    4 + aligned(payload_of(v).len())
}

pub proof fn lemma_encode_attr_len(tag: u16, v: AttributeValue)
    ensures
        encode_attr(tag, v).len() == attr_size(v),
        attr_size(v) % 4 == 0,
        attr_size(v) >= 4 + payload_of(v).len(),
{
}

pub proof fn lemma_stream_monotone(s: Seq<(u16, AttributeValue)>, k: nat, n: nat)
    requires
        k <= n <= s.len(),
    ensures
        stream_of(s, k).len() <= stream_of(s, n).len(),
    decreases n - k,
{
    if k < n {
        lemma_stream_monotone(s, k, (n - 1) as nat);
    }
}

fn push_le16(out: &mut Vec<u8>, x: u16)
    ensures
        final(out)@ == old(out)@ + le16(x),
{
    out.push((x & 0xff) as u8);
    out.push((x >> 8) as u8);
    assert(final(out)@ =~= old(out)@ + le16(x));
}

fn push_le32(out: &mut Vec<u8>, x: u32)
    ensures
        final(out)@ == old(out)@ + le32(x),
{
    out.push((x & 0xff) as u8);
    out.push(((x >> 8) & 0xff) as u8);
    out.push(((x >> 16) & 0xff) as u8);
    out.push((x >> 24) as u8);
    assert(final(out)@ =~= old(out)@ + le32(x));
}

fn push_le64(out: &mut Vec<u8>, x: u64)
    ensures
        final(out)@ == old(out)@ + le64(x),
{
    out.push((x & 0xff) as u8);
    out.push(((x >> 8) & 0xff) as u8);
    out.push(((x >> 16) & 0xff) as u8);
    out.push(((x >> 24) & 0xff) as u8);
    out.push(((x >> 32) & 0xff) as u8);
    out.push(((x >> 40) & 0xff) as u8);
    out.push(((x >> 48) & 0xff) as u8);
    out.push((x >> 56) as u8);
    assert(final(out)@ =~= old(out)@ + le64(x));
}

pub(crate) fn push_bytes(out: &mut Vec<u8>, b: &[u8])
    ensures
        final(out)@ == old(out)@ + b@,
{
    let mut i: usize = 0;
    while i < b.len()
        invariant
            0 <= i <= b.len(),
            out@ == old(out)@ + b@.subrange(0, i as int),
        decreases b.len() - i,
    {
        out.push(b[i]);
        i = i + 1;
        assert(out@ =~= old(out)@ + b@.subrange(0, i as int));
    }
    assert(b@.subrange(0, b.len() as int) =~= b@);
}

/// Reports whether no flag set to `false` occurs in `v`.
fn check_flags(v: &AttributeValue) -> (r: bool)
    ensures
        r == no_false_flag(*v),
    decreases v,
{
    match v {
        AttributeValue::Flag(b) => *b,
        AttributeValue::Nested(ch) => {
            let mut i: usize = 0;
            while i < ch.len()
                invariant
                    0 <= i <= ch.len(),
                    flags_hold(ch@, i as nat),
                    *v == AttributeValue::Nested(*ch),
                decreases ch.len() - i,
            {
                proof {
                    lemma_child_decreases(*v, i as int);
                }
                if !check_flags(&ch[i].1) {
                    proof {
                        if flags_hold(ch@, ch@.len()) {
                            lemma_flags_hold_each(ch@, ch@.len(), i as int);
                        }
                    }
                    return false;
                }
                i = i + 1;
            }
            true
        },
        _ => true,
    }
}

/// The payload of `v`, or `None` where it is longer than the length field can declare.
fn encode_payload(v: &AttributeValue) -> (r: Option<Vec<u8>>)
    requires
        no_false_flag(*v),
    ensures
        match r {
            Some(b) => b@ == payload_of(*v) && b@.len() <= MAX_PAYLOAD,
            None => payload_of(*v).len() > MAX_PAYLOAD,
        },
    decreases v, 0nat,
{
    let mut out: Vec<u8> = Vec::new();
    match v {
        AttributeValue::Raw(b) => {
            if b.len() > MAX_PAYLOAD {
                return None;
            }
            push_bytes(&mut out, b.as_slice());
        },
        AttributeValue::U8(x) => {
            out.push(*x);
            assert(out@ =~= seq![*x]);
        },
        AttributeValue::U16(x) => push_le16(&mut out, *x),
        AttributeValue::U32(x) => push_le32(&mut out, *x),
        AttributeValue::U64(x) => push_le64(&mut out, *x),
        AttributeValue::Msec(x) => push_le64(&mut out, *x),
        AttributeValue::String(s) => {
            let text: &[u8] = s.as_str().as_bytes();
            if text.len() >= MAX_PAYLOAD {
                return None;
            }
            push_bytes(&mut out, text);
            out.push(0u8);
        },
        AttributeValue::Flag(_) => {
            assert(out@ =~= Seq::<u8>::empty());
        },
        AttributeValue::Nested(ch) => {
            let mut i: usize = 0;
            while i < ch.len()
                invariant
                    0 <= i <= ch.len(),
                    out@ == stream_of(ch@, i as nat),
                    out@.len() <= MAX_PAYLOAD,
                    no_false_flag(*v),
                    *v == AttributeValue::Nested(*ch),
                decreases ch.len() - i,
            {
                proof {
                    lemma_flags_hold_each(ch@, ch@.len(), i as int);
                    lemma_child_decreases(*v, i as int);
                    lemma_stream_monotone(ch@, (i + 1) as nat, ch@.len());
                    lemma_encode_attr_len(ch@[i as int].0, ch@[i as int].1);
                }
                match encode_attr_checked(ch[i].0, &ch[i].1) {
                    None => {
                        return None;
                    },
                    Some(e) => {
                        if e.len() > MAX_PAYLOAD - out.len() {
                            return None;
                        }
                        push_bytes(&mut out, e.as_slice());
                    },
                }
                i = i + 1;
            }
        },
    }
    Some(out)
}

/// The wire form of one attribute, or `None` where its payload is too long.
fn encode_attr_checked(tag: u16, v: &AttributeValue) -> (r: Option<Vec<u8>>)
    requires
        no_false_flag(*v),
    ensures
        match r {
            Some(b) => b@ == encode_attr(tag, *v) && payload_of(*v).len() <= MAX_PAYLOAD,
            None => payload_of(*v).len() > MAX_PAYLOAD,
        },
    decreases v, 1nat,
{
    let payload = encode_payload(v)?;
    let n = payload.len();
    let mut out: Vec<u8> = Vec::new();
    push_le16(&mut out, n as u16);
    push_le16(&mut out, tag);
    push_bytes(&mut out, payload.as_slice());
    let pad: usize = (4 - n % 4) % 4;
    let mut k: usize = 0;
    while k < pad
        invariant
            0 <= k <= pad,
            pad == pad_len(n as nat),
            out@ == le16(n as u16) + le16(tag) + payload@ + zeros(k as nat),
        decreases pad - k,
    {
        out.push(0u8);
        k = k + 1;
        assert(out@ =~= le16(n as u16) + le16(tag) + payload@ + zeros(k as nat));
    }
    Some(out)
}

/// Encodes one attribute: a 16-bit payload length, the 16-bit type, the payload, and
/// zero padding up to a multiple of four bytes.
pub fn encode(tag: u16, v: &AttributeValue) -> (r: Result<Vec<u8>, NlError>)
    ensures
        match r {
            Ok(b) => encodable(*v) && b@ == encode_attr(tag, *v),
            Err(e) => !encodable(*v) && (e == NlError::FalseFlag <==> !no_false_flag(*v)) && (e
                == NlError::PayloadTooLong <==> no_false_flag(*v)),
        },
{
    if !check_flags(v) {
        return Err(NlError::FalseFlag);
    }
    match encode_attr_checked(tag, v) {
        Some(b) => Ok(b),
        None => Err(NlError::PayloadTooLong),
    }
}

} // verus!
