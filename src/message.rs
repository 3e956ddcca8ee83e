//! A message buffer: the fixed header followed by appended attributes.

use vstd::prelude::*;
use crate::attr::{
    attr_size, encodable, encode, encode_attr, lemma_encode_attr_len, no_false_flag, payload_of,
    push_bytes, AttributeValue, MAX_PAYLOAD,
};
use crate::error::NlError;
use crate::stream::{parse_stream, MessageIterator};
use crate::wire::{aligned, le16, le32, read16, read32, zeros, HEADER_LEN};

verus! {

/// The largest total length that the 32-bit header field can declare.
pub const MAX_MESSAGE: u32 = 0xffff_ffff;

/// The fixed header fields of a message.
#[derive(Debug, Clone, Copy, PartialEq, Eq, Structural)]
pub struct Header {
    pub length: u32,
    pub msg_type: u16,
    pub flags: u16,
    pub seq: u32,
    pub pid: u32,
}

/// The total length that the header of message bytes `b` declares.
pub open spec fn header_length(b: Seq<u8>) -> u32 {
    read32(b)
}

/// `b` with its length field set to `n`.
pub open spec fn with_length(b: Seq<u8>, n: u32) -> Seq<u8> {
    le32(n) + b.skip(4)
}

/// The bytes from `start` up to the length that the header of `b` declares, cut at the
/// end of `b`.
pub open spec fn attr_region_from(b: Seq<u8>, start: int) -> Seq<u8> {
    let end = if read32(b) as int <= b.len() {
        read32(b) as int
    } else {
        b.len() as int
    };
    if start <= end {
        b.subrange(start, end)
    } else {
        Seq::empty()
    }
}

/// The attribute stream that follows the fixed header of `b`.
pub open spec fn attr_region(b: Seq<u8>) -> Seq<u8> {
    attr_region_from(b, 16)
}

/// One Netlink message: the fixed header followed by an attribute stream.
pub struct Message {
    buf: Vec<u8>,
}

impl View for Message {
    type V = Seq<u8>;

    closed spec fn view(&self) -> Seq<u8> {
        self.buf@
    }
}

impl Message {
    /// A message always holds at least the fixed header.
    pub open spec fn wf(&self) -> bool {
        self@.len() >= HEADER_LEN
    }

    /// An empty message: a header with its length set to the header size and every other
    /// field zero.
    pub fn new() -> (r: Message)
        ensures
            r.wf(),
            r@ == with_length(zeros(16), 16),
    {
        let mut buf: Vec<u8> = Vec::new();
        buf.push(16u8);
        let mut i: usize = 1;
        while i < HEADER_LEN
            invariant
                1 <= i <= HEADER_LEN,
                buf@.len() == i,
                buf@[0] == 16u8,
                forall|j: int| 1 <= j < i ==> buf@[j] == 0u8,
            decreases HEADER_LEN - i,
        {
            buf.push(0u8);
            i = i + 1;
        }
        assert((16u32 & 0xff) as u8 == 16u8 && ((16u32 >> 8) & 0xff) as u8 == 0u8 && ((16u32
            >> 16) & 0xff) as u8 == 0u8 && (16u32 >> 24) as u8 == 0u8) by (bit_vector);
        assert(buf@ =~= with_length(zeros(16), 16));
        Message { buf }
    }

    /// Wraps received bytes; fails where they are shorter than the header.
    pub fn from_bytes(bytes: &[u8]) -> (r: Result<Message, NlError>)
        ensures
            bytes@.len() >= 16 <==> r is Ok,
            r is Ok ==> r->Ok_0.wf() && r->Ok_0@ == bytes@,
            r is Err ==> r->Err_0 == NlError::HeaderTooShort,
    {
        if bytes.len() < HEADER_LEN {
            return Err(NlError::HeaderTooShort);
        }
        let mut buf: Vec<u8> = Vec::new();
        push_bytes(&mut buf, bytes);
        Ok(Message { buf })
    }

    /// The wire bytes of the whole message.
    pub fn as_bytes(&self) -> (r: &[u8])
        ensures
            r@ == self@,
    {
        self.buf.as_slice()
    }

    /// The header fields.
    pub fn header(&self) -> (r: Header)
        requires
            self.wf(),
        ensures
            r.length == read32(self@),
            r.msg_type == read16(self@.skip(4)),
            r.flags == read16(self@.skip(6)),
            r.seq == read32(self@.skip(8)),
            r.pid == read32(self@.skip(12)),
    {
        Header {
            length: self.get_u32(0),
            msg_type: self.get_u16(4),
            flags: self.get_u16(6),
            seq: self.get_u32(8),
            pid: self.get_u32(12),
        }
    }

    fn get_u16(&self, at: usize) -> (r: u16)
        requires
            self.wf(),
            at + 2 <= HEADER_LEN,
        ensures
            r == read16(self@.skip(at as int)),
    {
        let b = &self.buf;
        (b[at] as u16) | ((b[at + 1] as u16) << 8)
    }

    fn get_u32(&self, at: usize) -> (r: u32)
        requires
            self.wf(),
            at + 4 <= HEADER_LEN,
        ensures
            r == read32(self@.skip(at as int)),
    {
        let b = &self.buf;
        assert(self@.skip(0) =~= self@);
        (b[at] as u32) | ((b[at + 1] as u32) << 8) | ((b[at + 2] as u32) << 16) | ((b[at + 3]
            as u32) << 24)
    }

    fn set_u16(&mut self, at: usize, x: u16)
        requires
            old(self).wf(),
            at + 2 <= HEADER_LEN,
        ensures
            final(self).wf(),
            final(self)@ == old(self)@.subrange(0, at as int) + le16(x) + old(self)@.skip(
                at + 2,
            ),
    {
        self.buf.set(at, (x & 0xff) as u8);
        self.buf.set(at + 1, (x >> 8) as u8);
        assert(self.buf@ =~= old(self)@.subrange(0, at as int) + le16(x) + old(self)@.skip(
            at + 2,
        ));
    }

    fn set_u32(&mut self, at: usize, x: u32)
        requires
            old(self).wf(),
            at + 4 <= HEADER_LEN,
        ensures
            final(self).wf(),
            final(self)@ == old(self)@.subrange(0, at as int) + le32(x) + old(self)@.skip(
                at + 4,
            ),
    {
        self.buf.set(at, (x & 0xff) as u8);
        self.buf.set(at + 1, ((x >> 8) & 0xff) as u8);
        self.buf.set(at + 2, ((x >> 16) & 0xff) as u8);
        self.buf.set(at + 3, (x >> 24) as u8);
        assert(self.buf@ =~= old(self)@.subrange(0, at as int) + le32(x) + old(self)@.skip(
            at + 4,
        ));
    }

    /// Sets the type, flags, sequence number and port id; the length field and the
    /// attributes stay as they are.
    pub fn set_header_fields(&mut self, msg_type: u16, flags: u16, seq: u32, pid: u32)
        requires
            old(self).wf(),
        ensures
            final(self).wf(),
            final(self)@ == old(self)@.subrange(0, 4) + le16(msg_type) + le16(flags) + le32(seq)
                + le32(pid) + old(self)@.skip(16),
    {
        self.set_u16(4, msg_type);
        self.set_u16(6, flags);
        self.set_u32(8, seq);
        self.set_u32(12, pid);
        assert(self.buf@ =~= old(self)@.subrange(0, 4) + le16(msg_type) + le16(flags) + le32(seq)
            + le32(pid) + old(self)@.skip(16));
    }

    /// Appends one attribute and adds its size, padding included, to the length field.
    ///
    /// Fails, leaving the message as it was, on a flag set to `false`, on a payload that
    /// the 16-bit length field cannot declare, and where the total length would no longer
    /// fit the 32-bit header field.
    pub fn put(&mut self, name: u16, value: &AttributeValue) -> (r: Result<(), NlError>)
        requires
            old(self).wf(),
        ensures
            final(self).wf(),
            r is Ok <==> encodable(*value) && header_length(old(self)@) + attr_size(*value)
                <= MAX_MESSAGE,
            r is Ok ==> final(self)@ == with_length(
                old(self)@ + encode_attr(name, *value),
                (header_length(old(self)@) + attr_size(*value)) as u32,
            ),
            r is Err ==> final(self)@ == old(self)@,
            r == Err::<(), NlError>(NlError::FalseFlag) <==> !no_false_flag(*value),
            r == Err::<(), NlError>(NlError::PayloadTooLong) <==> no_false_flag(*value)
                && payload_of(*value).len() > MAX_PAYLOAD,
            r == Err::<(), NlError>(NlError::MessageTooLong) <==> encodable(*value)
                && header_length(old(self)@) + attr_size(*value) > MAX_MESSAGE,
    {
        let bytes = encode(name, value)?;
        proof {
            lemma_encode_attr_len(name, *value);
        }
        let len = self.get_u32(0);
        assert(self@.skip(0) =~= self@);
        if bytes.len() as u64 > (MAX_MESSAGE - len) as u64 {
            return Err(NlError::MessageTooLong);
        }
        let total: u32 = len + bytes.len() as u32;
        push_bytes(&mut self.buf, bytes.as_slice());
        self.set_u32(0, total);
        assert(self@ =~= with_length(
            old(self)@ + encode_attr(name, *value),
            (header_length(old(self)@) + attr_size(*value)) as u32,
        ));
        Ok(())
    }

    /// A walk over the attributes that follow the header, within the length the header
    /// declares and the bytes at hand.
    pub fn into_iter(self) -> (r: MessageIterator)
        requires
            self.wf(),
        ensures
            r@ == parse_stream(attr_region(self@)),
    {
        self.into_iter_after(0)
    }

    /// A walk over the attributes that follow the header and a protocol-specific
    /// sub-header of `hdrlen` bytes, padded to a multiple of four.
    pub fn into_iter_after(self, hdrlen: usize) -> (r: MessageIterator)
        requires
            self.wf(),
        ensures
            r@ == parse_stream(attr_region_from(self@, (16 + aligned(hdrlen as nat)) as int)),
    {
        let declared = self.get_u32(0);
        assert(self@.skip(0) =~= self@);
        let n = self.buf.len();
        let end: usize = if (declared as u64) <= (n as u64) {
            declared as usize
        } else {
            n
        };
        let pad: usize = (4 - hdrlen % 4) % 4;
        if end < HEADER_LEN || hdrlen > end - HEADER_LEN || end - HEADER_LEN - hdrlen < pad {
            let empty: Vec<u8> = Vec::new();
            assert(empty@.subrange(0, 0) =~= Seq::<u8>::empty());
            return MessageIterator::over(empty, 0, 0);
        }
        MessageIterator::over(self.buf, HEADER_LEN + hdrlen + pad, end)
    }
}

} // verus!
