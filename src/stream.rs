//! Reading attribute streams: the walk over a stream, and typed reads of one attribute.

use vstd::prelude::*;
use crate::attr::{payload_of, push_bytes, AttributeValue, no_false_flag};
use crate::error::NlError;
use crate::wire::{aligned, le16, le32, le64, read16, read32, read64};
use vstd::utf8::{decode_utf8, encode_utf8, valid_utf8};

verus! {

/// Whether `b` starts with a whole attribute: a header, the declared payload and its padding.
pub open spec fn attr_fits(b: Seq<u8>) -> bool {
    b.len() >= 4 && 4 + aligned(read16(b) as nat) <= b.len()
}

/// The attributes, as type and payload, that a walk over `b` yields before it meets the
/// end or bytes that do not form a whole attribute.
pub open spec fn parse_stream(b: Seq<u8>) -> Seq<(u16, Seq<u8>)>
    decreases b.len(),
{
    if attr_fits(b) {
        let n = read16(b) as nat;
        seq![(read16(b.skip(2)), b.subrange(4, 4 + n as int))] + parse_stream(
            b.skip((4 + aligned(n)) as int),
        )
    } else {
        Seq::empty()
    }
}

/// A walk over a prefix of a byte stream yields a prefix of what the walk over the whole
/// stream yields: truncated bytes end the walk early and never produce a different attribute.
pub proof fn lemma_parse_prefix(b: Seq<u8>, p: Seq<u8>)
    requires
        p.len() <= b.len(),
        p == b.subrange(0, p.len() as int),
    ensures
        parse_stream(p).len() <= parse_stream(b).len(),
        parse_stream(p) == parse_stream(b).subrange(0, parse_stream(p).len() as int),
    decreases p.len(),
{
    if attr_fits(p) {
        assert(p[0] == b[0] && p[1] == b[1]);
        assert(p.skip(2)[0] == b.skip(2)[0] && p.skip(2)[1] == b.skip(2)[1]);
        let n = read16(p) as nat;
        let k = 4 + aligned(n);
        assert(attr_fits(b));
        assert(p.subrange(4, 4 + n as int) =~= b.subrange(4, 4 + n as int));
        assert(p.skip(k as int) =~= b.skip(k as int).subrange(0, p.skip(k as int).len() as int));
        lemma_parse_prefix(b.skip(k as int), p.skip(k as int));
        assert(parse_stream(p) =~= parse_stream(b).subrange(0, parse_stream(p).len() as int));
    } else {
        assert(parse_stream(p) =~= parse_stream(b).subrange(0, 0));
    }
}

/// Relies on `String::from_utf8`: it succeeds exactly on valid UTF-8, and the text it
/// returns is the one those bytes encode.
#[verifier::external_body]
fn string_from_utf8(b: Vec<u8>) -> (r: Option<String>)
    ensures
        r is Some <==> valid_utf8(b@),
        r is Some ==> r->0@ == decode_utf8(b@),
{
    String::from_utf8(b).ok()
}

/// One attribute read from a stream: its type and its payload without padding.
pub struct Attribute {
    name: u16,
    payload: Vec<u8>,
}

/// The kind of value that a payload is read as.
#[derive(Debug, Clone, Copy, PartialEq, Eq, Structural)]
pub enum AttributeKind {
    Raw,
    U8,
    U16,
    U32,
    U64,
    String,
    Flag,
    Msec,
}

/// The kind of a value that is not nested.
pub open spec fn kind_of(v: AttributeValue) -> Option<AttributeKind> {
    match v {
        AttributeValue::Raw(_) => Some(AttributeKind::Raw),
        AttributeValue::U8(_) => Some(AttributeKind::U8),
        AttributeValue::U16(_) => Some(AttributeKind::U16),
        AttributeValue::U32(_) => Some(AttributeKind::U32),
        AttributeValue::U64(_) => Some(AttributeKind::U64),
        AttributeValue::String(_) => Some(AttributeKind::String),
        AttributeValue::Flag(_) => Some(AttributeKind::Flag),
        AttributeValue::Msec(_) => Some(AttributeKind::Msec),
        AttributeValue::Nested(_) => None,
    }
}

/// Whether payload `p` can be read as a value of kind `k`.
pub open spec fn decodable(p: Seq<u8>, k: AttributeKind) -> bool {
    match k {
        AttributeKind::Raw => true,
        AttributeKind::U8 => p.len() == 1,
        AttributeKind::U16 => p.len() == 2,
        AttributeKind::U32 => p.len() == 4,
        AttributeKind::U64 => p.len() == 8,
        AttributeKind::Msec => p.len() == 8,
        AttributeKind::Flag => p.len() == 0,
        AttributeKind::String => p.len() >= 1 && p.last() == 0 && valid_utf8(p.drop_last()),
    }
}

/// The error that reading payload `p` as kind `k` gives, where it cannot be read.
pub open spec fn decode_error(k: AttributeKind) -> NlError {
    if k == AttributeKind::String {
        NlError::InvalidString
    } else {
        NlError::WidthMismatch
    }
}

pub proof fn lemma_read_le16(b: Seq<u8>)
    requires
        b.len() == 2,
    ensures
        le16(read16(b)) == b,
{
    let (x, y) = (b[0], b[1]);
    assert(((x as u16 | ((y as u16) << 8)) & 0xff) as u8 == x && ((x as u16 | ((y as u16) << 8))
        >> 8) as u8 == y) by (bit_vector);
    assert(le16(read16(b)) =~= b);
}

pub proof fn lemma_read_le32(b: Seq<u8>)
    requires
        b.len() == 4,
    ensures
        le32(read32(b)) == b,
{
    let (x0, x1, x2, x3) = (b[0], b[1], b[2], b[3]);
    let w = read32(b);
    assert(w == (x0 as u32) | ((x1 as u32) << 8) | ((x2 as u32) << 16) | ((x3 as u32) << 24));
    assert(((x0 as u32) | ((x1 as u32) << 8) | ((x2 as u32) << 16) | ((x3 as u32) << 24)) & 0xff
        == x0 as u32) by (bit_vector);
    assert((((x0 as u32) | ((x1 as u32) << 8) | ((x2 as u32) << 16) | ((x3 as u32) << 24)) >> 8)
        & 0xff == x1 as u32) by (bit_vector);
    assert((((x0 as u32) | ((x1 as u32) << 8) | ((x2 as u32) << 16) | ((x3 as u32) << 24)) >> 16)
        & 0xff == x2 as u32) by (bit_vector);
    assert((((x0 as u32) | ((x1 as u32) << 8) | ((x2 as u32) << 16) | ((x3 as u32) << 24)) >> 24)
        == x3 as u32) by (bit_vector);
    assert(le32(read32(b)) =~= b);
}

pub proof fn lemma_read_le64(b: Seq<u8>)
    requires
        b.len() == 8,
    ensures
        le64(read64(b)) == b,
{
    let (x0, x1, x2, x3, x4, x5, x6, x7) = (b[0], b[1], b[2], b[3], b[4], b[5], b[6], b[7]);
    let w = read64(b);
    assert(w & 0xff == x0 as u64 && (w >> 8) & 0xff == x1 as u64 && (w >> 16) & 0xff
        == x2 as u64 && (w >> 24) & 0xff == x3 as u64 && (w >> 32) & 0xff == x4 as u64 && (w
        >> 40) & 0xff == x5 as u64 && (w >> 48) & 0xff == x6 as u64 && (w >> 56) == x7 as u64)
        by (bit_vector)
        requires
            w == (x0 as u64) | ((x1 as u64) << 8) | ((x2 as u64) << 16) | ((x3 as u64) << 24)
                | ((x4 as u64) << 32) | ((x5 as u64) << 40) | ((x6 as u64) << 48) | ((x7 as u64)
                << 56),
    ;
    assert(le64(read64(b)) =~= b);
}

impl View for Attribute {
    type V = (u16, Seq<u8>);

    closed spec fn view(&self) -> (u16, Seq<u8>) {
        (self.name, self.payload@)
    }
}

impl Attribute {
    /// The attribute's type.
    pub fn name(&self) -> (r: u16)
        ensures
            r == self@.0,
    {
        self.name
    }

    /// A copy of the payload bytes.
    pub fn as_raw(&self) -> (r: Vec<u8>)
        ensures
            r@ == self@.1,
    {
        let mut out: Vec<u8> = Vec::new();
        push_bytes(&mut out, self.payload.as_slice());
        out
    }

    /// The payload as an 8-bit value; fails unless it is one byte long.
    pub fn as_uint8(&self) -> (r: Result<u8, NlError>)
        ensures
            self@.1.len() == 1 <==> r is Ok,
            r is Ok ==> r->Ok_0 == self@.1[0],
            r is Err ==> r->Err_0 == NlError::WidthMismatch,
    {
        if self.payload.len() != 1 {
            return Err(NlError::WidthMismatch);
        }
        Ok(self.payload[0])
    }

    /// The payload as a 16-bit value; fails unless it is two bytes long.
    pub fn as_uint16(&self) -> (r: Result<u16, NlError>)
        ensures
            self@.1.len() == 2 <==> r is Ok,
            r is Ok ==> r->Ok_0 == read16(self@.1),
            r is Err ==> r->Err_0 == NlError::WidthMismatch,
    {
        if self.payload.len() != 2 {
            return Err(NlError::WidthMismatch);
        }
        let b = &self.payload;
        Ok((b[0] as u16) | ((b[1] as u16) << 8))
    }

    /// The payload as a 32-bit value; fails unless it is four bytes long.
    pub fn as_uint32(&self) -> (r: Result<u32, NlError>)
        ensures
            self@.1.len() == 4 <==> r is Ok,
            r is Ok ==> r->Ok_0 == read32(self@.1),
            r is Err ==> r->Err_0 == NlError::WidthMismatch,
    {
        if self.payload.len() != 4 {
            return Err(NlError::WidthMismatch);
        }
        let b = &self.payload;
        Ok((b[0] as u32) | ((b[1] as u32) << 8) | ((b[2] as u32) << 16) | ((b[3] as u32) << 24))
    }

    /// The payload as a 64-bit value; fails unless it is eight bytes long.
    pub fn as_uint64(&self) -> (r: Result<u64, NlError>)
        ensures
            self@.1.len() == 8 <==> r is Ok,
            r is Ok ==> r->Ok_0 == read64(self@.1),
            r is Err ==> r->Err_0 == NlError::WidthMismatch,
    {
        if self.payload.len() != 8 {
            return Err(NlError::WidthMismatch);
        }
        let b = &self.payload;
        Ok((b[0] as u64) | ((b[1] as u64) << 8) | ((b[2] as u64) << 16) | ((b[3] as u64) << 24)
            | ((b[4] as u64) << 32) | ((b[5] as u64) << 40) | ((b[6] as u64) << 48) | ((b[7] as u64)
            << 56))
    }

    /// The payload as a presence flag: `true` where it is empty.
    pub fn as_flag(&self) -> (r: Result<bool, NlError>)
        ensures
            self@.1.len() == 0 <==> r is Ok,
            r is Ok ==> r->Ok_0,
            r is Err ==> r->Err_0 == NlError::WidthMismatch,
    {
        if self.payload.len() != 0 {
            return Err(NlError::WidthMismatch);
        }
        Ok(true)
    }

    /// The payload as text: UTF-8 followed by one NUL byte, which is dropped.
    pub fn as_string(&self) -> (r: Result<String, NlError>)
        ensures
            decodable(self@.1, AttributeKind::String) <==> r is Ok,
            r is Ok ==> encode_utf8(r->Ok_0@).push(0u8) == self@.1,
            r is Err ==> r->Err_0 == NlError::InvalidString,
    {
        let n = self.payload.len();
        if n == 0 || self.payload[n - 1] != 0 {
            return Err(NlError::InvalidString);
        }
        let mut text: Vec<u8> = Vec::new();
        let mut i: usize = 0;
        while i < n - 1
            invariant
                n == self.payload.len(),
                0 <= i <= n - 1,
                text@ == self.payload@.subrange(0, i as int),
            decreases n - 1 - i,
        {
            text.push(self.payload[i]);
            i = i + 1;
            assert(text@ =~= self.payload@.subrange(0, i as int));
        }
        assert(text@ =~= self@.1.drop_last());
        let ghost bytes = text@;
        match string_from_utf8(text) {
            Some(s) => {
                proof {
                    vstd::utf8::decode_utf8_encode_utf8(bytes);
                    assert(encode_utf8(s@).push(0u8) =~= self@.1);
                }
                Ok(s)
            },
            None => Err(NlError::InvalidString),
        }
    }

    /// Reads the payload as a value of kind `k`.
    pub fn decode(&self, k: AttributeKind) -> (r: Result<AttributeValue, NlError>)
        ensures
            decodable(self@.1, k) <==> r is Ok,
            r is Ok ==> kind_of(r->Ok_0) == Some(k) && payload_of(r->Ok_0) == self@.1
                && no_false_flag(r->Ok_0),
            r is Err ==> r->Err_0 == decode_error(k),
    {
        match k {
            AttributeKind::Raw => Ok(AttributeValue::Raw(self.as_raw())),
            AttributeKind::U8 => {
                let x = self.as_uint8()?;
                assert(seq![x] =~= self@.1);
                Ok(AttributeValue::U8(x))
            },
            AttributeKind::U16 => {
                let x = self.as_uint16()?;
                proof {
                    lemma_read_le16(self@.1);
                }
                Ok(AttributeValue::U16(x))
            },
            AttributeKind::U32 => {
                let x = self.as_uint32()?;
                proof {
                    lemma_read_le32(self@.1);
                }
                Ok(AttributeValue::U32(x))
            },
            AttributeKind::U64 => {
                let x = self.as_uint64()?;
                proof {
                    lemma_read_le64(self@.1);
                }
                Ok(AttributeValue::U64(x))
            },
            AttributeKind::Msec => {
                let x = self.as_uint64()?;
                proof {
                    lemma_read_le64(self@.1);
                }
                Ok(AttributeValue::Msec(x))
            },
            AttributeKind::Flag => {
                let x = self.as_flag()?;
                assert(self@.1 =~= Seq::<u8>::empty());
                Ok(AttributeValue::Flag(x))
            },
            AttributeKind::String => {
                let s = self.as_string()?;
                Ok(AttributeValue::String(s))
            },
        }
    }
}

/// Reads the attribute header at `offset`: the type, the declared payload length, and
/// where the payload starts. Fails where fewer than four bytes remain there.
pub fn decode_header(bytes: &[u8], offset: usize) -> (r: Result<(u16, u16, usize), NlError>)
    ensures
        offset + 4 <= bytes@.len() <==> r is Ok,
        r is Ok ==> r->Ok_0 == (
            read16(bytes@.skip(offset + 2)),
            read16(bytes@.skip(offset as int)),
            (offset + 4) as usize,
        ),
        r is Err ==> r->Err_0 == NlError::TruncatedHeader,
{
    if offset > bytes.len() || bytes.len() - offset < 4 {
        return Err(NlError::TruncatedHeader);
    }
    let n: u16 = (bytes[offset] as u16) | ((bytes[offset + 1] as u16) << 8);
    let tag: u16 = (bytes[offset + 2] as u16) | ((bytes[offset + 3] as u16) << 8);
    Ok((tag, n, offset + 4))
}

/// A copy of the `len` payload bytes at `offset`. Fails where the bytes end before them.
pub fn decode_payload(bytes: &[u8], offset: usize, len: usize) -> (r: Result<Vec<u8>, NlError>)
    ensures
        offset + len <= bytes@.len() <==> r is Ok,
        r is Ok ==> r->Ok_0@ == bytes@.subrange(offset as int, offset + len),
        r is Err ==> r->Err_0 == NlError::PayloadTooShort,
{
    if offset > bytes.len() || bytes.len() - offset < len {
        return Err(NlError::PayloadTooShort);
    }
    let end = offset + len;
    let mut out: Vec<u8> = Vec::new();
    let mut i: usize = offset;
    while i < end
        invariant
            offset <= i <= end == offset + len <= bytes@.len(),
            out@ == bytes@.subrange(offset as int, i as int),
        decreases end - i,
    {
        out.push(bytes[i]);
        i = i + 1;
        assert(out@ =~= bytes@.subrange(offset as int, i as int));
    }
    Ok(out)
}

/// A walk over the attribute stream held in `buf[offset..offset + remaining]`.
///
/// Each step checks that a whole attribute, padding included, lies within the bytes that
/// remain; where none does, the walk ends for good.
pub struct MessageIterator {
    buf: Vec<u8>,
    offset: usize,
    remaining: usize,
}

impl View for MessageIterator {
    type V = Seq<(u16, Seq<u8>)>;

    /// The attributes that the walk has yet to yield.
    closed spec fn view(&self) -> Seq<(u16, Seq<u8>)> {
        parse_stream(self.buf@.subrange(self.offset as int, self.offset + self.remaining))
    }
}

impl MessageIterator {
    #[verifier::type_invariant]
    spec fn inv(&self) -> bool {
        self.offset + self.remaining <= self.buf.len()
    }

    /// A walk over the bytes `buf[start..end]`.
    pub fn over(buf: Vec<u8>, start: usize, end: usize) -> (r: MessageIterator)
        requires
            start <= end <= buf.len(),
        ensures
            r@ == parse_stream(buf@.subrange(start as int, end as int)),
    {
        MessageIterator { buf, offset: start, remaining: end - start }
    }

    /// The next attribute, or `None` once no whole attribute remains.
    pub fn next(&mut self) -> (r: Option<Attribute>)
        ensures
            old(self)@.len() == 0 ==> r is None && final(self)@.len() == 0,
            old(self)@.len() > 0 ==> r is Some && r->0@ == old(self)@[0] && final(self)@
                == old(self)@.drop_first(),
    {
        proof {
            use_type_invariant(&*self);
        }
        let ghost s = self.buf@.subrange(self.offset as int, self.offset + self.remaining);
        let o = self.offset;
        if self.remaining < 4 {
            self.remaining = 0;
            assert(self.buf@.subrange(o as int, o as int).len() == 0);
            return None;
        }
        let (tag, n, at) = match decode_header(self.buf.as_slice(), o) {
            Ok(h) => h,
            Err(_) => {
                self.remaining = 0;
                return None;
            },
        };
        assert(s.subrange(0, 2) =~= self.buf@.skip(o as int).subrange(0, 2));
        assert(read16(s) == n);
        assert(read16(s.skip(2)) == tag);
        let nn = n as usize;
        let size: usize = 4 + nn + (4 - nn % 4) % 4;
        if size > self.remaining {
            self.remaining = 0;
            assert(self.buf@.subrange(o as int, o as int).len() == 0);
            return None;
        }
        let payload = match decode_payload(self.buf.as_slice(), at, nn) {
            Ok(p) => p,
            Err(_) => {
                self.remaining = 0;
                return None;
            },
        };
        assert(payload@ =~= s.subrange(4, 4 + nn as int));
        self.remaining = self.remaining - size;
        self.offset = o + size;
        assert(s.skip(size as int) =~= self.buf@.subrange(
            self.offset as int,
            self.offset + self.remaining,
        ));
        Some(Attribute { name: tag, payload })
    }
}

impl Attribute {
    /// A walk over the child attributes that the payload holds.
    pub fn nested(&self) -> (r: MessageIterator)
        ensures
            r@ == parse_stream(self@.1),
    {
        let b = self.as_raw();
        let n = b.len();
        assert(b@.subrange(0, n as int) =~= b@);
        MessageIterator::over(b, 0, n)
    }
}

} // verus!
