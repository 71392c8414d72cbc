//! Wire framing primitives: the fixed-width message header and size limits.

use crate::error::{Error, ErrorView};
use crate::messages::{status_view, Code, KeyValue, Status};
use crate::wire::{CodecError, WireFault};
use crate::text::{decimal, usize_text};
use vstd::prelude::*;
use vstd::slice::slice_subrange;
use vstd::string::*;

verus! {

/// Encoded length of a ttrpc message header, in bytes.
pub const MESSAGE_HEADER_LENGTH: usize = 10;

/// Maximum accepted payload length, in bytes (4 MiB).
pub const MESSAGE_LENGTH_MAX: usize = 4194304;

/// Buffer size used while discarding an oversized payload (4 KiB).
pub const DEFAULT_PAGE_SIZE: usize = 4096;

/// Message type used for a request.
pub const MESSAGE_TYPE_REQUEST: u8 = 0x1;

/// Message type used for a response.
pub const MESSAGE_TYPE_RESPONSE: u8 = 0x2;

/// Message type used for a streaming data frame.
pub const MESSAGE_TYPE_DATA: u8 = 0x3;

/// Indicates that the sending endpoint has closed its stream half.
pub const FLAG_REMOTE_CLOSED: u8 = 0x1;

/// Indicates that the sending endpoint has opened its stream half.
pub const FLAG_REMOTE_OPEN: u8 = 0x2;

/// Indicates that a frame contains no payload.
pub const FLAG_NO_DATA: u8 = 0x4;

/// The big-endian value of four bytes.
pub open spec fn be_u32_value(b0: u8, b1: u8, b2: u8, b3: u8) -> u32 {
    ((b0 as u32) << 24u32) | ((b1 as u32) << 16u32) | ((b2 as u32) << 8u32) | (b3 as u32)
}

/// The big-endian encoding of a `u32`.
pub open spec fn be_u32_bytes(v: u32) -> Seq<u8> {
    seq![(v >> 24u32) as u8, ((v >> 16u32) & 0xffu32) as u8, ((v >> 8u32) & 0xffu32) as u8, (v & 0xffu32) as u8]
}

/// Reads a big-endian `u32` from the first four bytes of `buf`.
///
/// Calls `byteorder::BigEndian::read_u32`, which panics on fewer than four bytes
/// and otherwise returns `u32::from_be_bytes` of the first four.
#[verifier::external_body]
fn read_be_u32(buf: &[u8]) -> (v: u32)
    requires
        buf@.len() >= 4,
    ensures
        v == be_u32_value(buf@[0], buf@[1], buf@[2], buf@[3]),
{
    <byteorder::BigEndian as byteorder::ByteOrder>::read_u32(buf)
}

/// The four big-endian bytes of `n`.
///
/// Calls `byteorder::BigEndian::write_u32` on a four-byte array, which copies
/// `n.to_be_bytes()` into it.
#[verifier::external_body]
fn write_be_u32(n: u32) -> (bytes: [u8; 4])
    ensures
        bytes@ == be_u32_bytes(n),
{
    let mut bytes = [0u8; 4];
    <byteorder::BigEndian as byteorder::ByteOrder>::write_u32(&mut bytes, n);
    bytes
}


/// Bit-level facts about the big-endian `u32` encoding.
proof fn lemma_be_u32_roundtrip(v: u32)
    ensures
        be_u32_value(be_u32_bytes(v)[0], be_u32_bytes(v)[1], be_u32_bytes(v)[2], be_u32_bytes(v)[3]) == v,
{
    assert(v == ((((v >> 24u32) as u8) as u32) << 24u32) | (((((v >> 16u32) & 0xffu32) as u8) as u32) << 16u32)
        | (((((v >> 8u32) & 0xffu32) as u8) as u32) << 8u32) | (((v & 0xffu32) as u8) as u32)) by (bit_vector);
}

/// Encoding the value of four bytes gives the same four bytes back.
proof fn lemma_be_u32_bytes_roundtrip(b0: u8, b1: u8, b2: u8, b3: u8)
    ensures
        be_u32_bytes(be_u32_value(b0, b1, b2, b3)) == seq![b0, b1, b2, b3],
{
    let v = be_u32_value(b0, b1, b2, b3);
    assert((v >> 24u32) as u8 == b0 && ((v >> 16u32) & 0xffu32) as u8 == b1
        && ((v >> 8u32) & 0xffu32) as u8 == b2 && (v & 0xffu32) as u8 == b3) by (bit_vector)
        requires
            v == ((b0 as u32) << 24u32) | ((b1 as u32) << 16u32) | ((b2 as u32) << 8u32) | (b3 as u32);
    assert(be_u32_bytes(v) =~= seq![b0, b1, b2, b3]);
}

/// The fixed-width header that precedes every ttrpc payload.
#[derive(Debug, Clone, Copy, PartialEq, Eq, Structural)]
pub struct MessageHeader {
    /// Length of the payload following this header, in bytes.
    pub length: u32,
    /// Identifier used to correlate frames belonging to the same RPC or stream.
    pub stream_id: u32,
    /// Frame kind; one of the `MESSAGE_TYPE_*` constants.
    pub type_: u8,
    /// Bitset composed from the `FLAG_*` constants.
    pub flags: u8,
}

/// The ten wire bytes of a header: length and stream id big-endian, then type and flags.
pub open spec fn header_bytes(h: MessageHeader) -> Seq<u8> {
    be_u32_bytes(h.length) + be_u32_bytes(h.stream_id) + seq![h.type_, h.flags]
}

/// The header that the first ten bytes of `b` denote.
pub open spec fn header_from_bytes(b: Seq<u8>) -> MessageHeader {
    MessageHeader {
        length: be_u32_value(b[0], b[1], b[2], b[3]),
        stream_id: be_u32_value(b[4], b[5], b[6], b[7]),
        type_: b[8],
        flags: b[9],
    }
}

/// Decoding the encoding of a header gives the header back.
pub proof fn lemma_header_decode_encode(h: MessageHeader)
    ensures
        header_bytes(h).len() == MESSAGE_HEADER_LENGTH,
        header_from_bytes(header_bytes(h)) == h,
{
    lemma_be_u32_roundtrip(h.length);
    lemma_be_u32_roundtrip(h.stream_id);
    let b = header_bytes(h);
    assert(b[0] == be_u32_bytes(h.length)[0] && b[1] == be_u32_bytes(h.length)[1]
        && b[2] == be_u32_bytes(h.length)[2] && b[3] == be_u32_bytes(h.length)[3]);
    assert(b[4] == be_u32_bytes(h.stream_id)[0] && b[5] == be_u32_bytes(h.stream_id)[1]
        && b[6] == be_u32_bytes(h.stream_id)[2] && b[7] == be_u32_bytes(h.stream_id)[3]);
}

/// A header goes on the wire as ten bytes, most significant byte first: the
/// length in the first four, the stream id in the next four, then the type and
/// the flags.
pub proof fn lemma_header_layout(h: MessageHeader)
    ensures
        header_bytes(h).len() == 10,
        header_bytes(h)[0] * 0x1000000 + header_bytes(h)[1] * 0x10000 + header_bytes(h)[2] * 0x100
            + header_bytes(h)[3] == h.length,
        header_bytes(h)[4] * 0x1000000 + header_bytes(h)[5] * 0x10000 + header_bytes(h)[6] * 0x100
            + header_bytes(h)[7] == h.stream_id,
        header_bytes(h)[8] == h.type_,
        header_bytes(h)[9] == h.flags,
{
    lemma_be_u32_weights(h.length);
    lemma_be_u32_weights(h.stream_id);
    let b = header_bytes(h);
    assert(b[0] == be_u32_bytes(h.length)[0] && b[1] == be_u32_bytes(h.length)[1]
        && b[2] == be_u32_bytes(h.length)[2] && b[3] == be_u32_bytes(h.length)[3]);
    assert(b[4] == be_u32_bytes(h.stream_id)[0] && b[5] == be_u32_bytes(h.stream_id)[1]
        && b[6] == be_u32_bytes(h.stream_id)[2] && b[7] == be_u32_bytes(h.stream_id)[3]);
}

/// The big-endian bytes of `v` weigh, from first to last, 2^24, 2^16, 2^8
/// and 1.
pub proof fn lemma_be_u32_weights(v: u32)
    ensures
        be_u32_bytes(v)[0] * 0x1000000 + be_u32_bytes(v)[1] * 0x10000 + be_u32_bytes(v)[2] * 0x100
            + be_u32_bytes(v)[3] == v,
{
    let b0 = (v >> 24u32) as u8;
    let b1 = ((v >> 16u32) & 0xffu32) as u8;
    let b2 = ((v >> 8u32) & 0xffu32) as u8;
    let b3 = (v & 0xffu32) as u8;
    assert(b0 * 0x1000000 + b1 * 0x10000 + b2 * 0x100 + b3 == v) by (bit_vector)
        requires
            b0 == (v >> 24u32) as u8,
            b1 == ((v >> 16u32) & 0xffu32) as u8,
            b2 == ((v >> 8u32) & 0xffu32) as u8,
            b3 == (v & 0xffu32) as u8;
}

/// Encoding the header that ten bytes denote gives those ten bytes back.
pub proof fn lemma_header_encode_decode(b: Seq<u8>)
    requires
        b.len() >= MESSAGE_HEADER_LENGTH,
    ensures
        header_bytes(header_from_bytes(b)) == b.take(MESSAGE_HEADER_LENGTH as int),
{
    lemma_be_u32_bytes_roundtrip(b[0], b[1], b[2], b[3]);
    lemma_be_u32_bytes_roundtrip(b[4], b[5], b[6], b[7]);
    assert(header_bytes(header_from_bytes(b)) =~= b.take(MESSAGE_HEADER_LENGTH as int));
}

impl Default for MessageHeader {
    /// An all-zero header.
    fn default() -> (h: Self)
        ensures
            h == (MessageHeader { length: 0, stream_id: 0, type_: 0, flags: 0 }),
    {
        MessageHeader { length: 0, stream_id: 0, type_: 0, flags: 0 }
    }
}

impl MessageHeader {
    /// Creates a request header for `stream_id` with payload length `len` and no flags.
    pub fn new_request(stream_id: u32, len: u32) -> (h: Self)
        ensures
            h == (MessageHeader { length: len, stream_id, type_: MESSAGE_TYPE_REQUEST, flags: 0 }),
    {
        MessageHeader { length: len, stream_id, type_: MESSAGE_TYPE_REQUEST, flags: 0 }
    }

    /// Creates a response header for `stream_id` with payload length `len` and no flags.
    pub fn new_response(stream_id: u32, len: u32) -> (h: Self)
        ensures
            h == (MessageHeader { length: len, stream_id, type_: MESSAGE_TYPE_RESPONSE, flags: 0 }),
    {
        MessageHeader { length: len, stream_id, type_: MESSAGE_TYPE_RESPONSE, flags: 0 }
    }

    /// Creates a data header for `stream_id` with payload length `len` and no flags.
    pub fn new_data(stream_id: u32, len: u32) -> (h: Self)
        ensures
            h == (MessageHeader { length: len, stream_id, type_: MESSAGE_TYPE_DATA, flags: 0 }),
    {
        MessageHeader { length: len, stream_id, type_: MESSAGE_TYPE_DATA, flags: 0 }
    }

    /// Sets the stream id, leaving the other fields unchanged.
    pub fn set_stream_id(&mut self, stream_id: u32)
        ensures
            *final(self) == (MessageHeader { stream_id, ..*old(self) }),
    {
        self.stream_id = stream_id;
    }

    /// Replaces the flags, leaving the other fields unchanged.
    pub fn set_flags(&mut self, flags: u8)
        ensures
            *final(self) == (MessageHeader { flags, ..*old(self) }),
    {
        self.flags = flags;
    }

    /// Adds `flags` to the flag bitset, leaving the other fields unchanged.
    pub fn add_flags(&mut self, flags: u8)
        ensures
            *final(self) == (MessageHeader { flags: old(self).flags | flags, ..*old(self) }),
    {
        self.flags = self.flags | flags;
    }

    /// Decodes a header from the first ten bytes of `buf`.
    pub fn from_bytes(buf: &[u8]) -> (h: Self)
        requires
            buf@.len() >= MESSAGE_HEADER_LENGTH,
        ensures
            h == header_from_bytes(buf@),
    {
        let length = read_be_u32(buf);
        let stream_id = read_be_u32(slice_subrange(buf, 4, 8));
        MessageHeader { length, stream_id, type_: buf[8], flags: buf[9] }
    }

    /// Writes the ten header bytes over the start of `buf`, keeping the rest.
    pub fn into_buf(self, buf: &mut Vec<u8>)
        requires
            old(buf)@.len() >= MESSAGE_HEADER_LENGTH,
        ensures
            final(buf)@ == header_bytes(self) + old(buf)@.skip(MESSAGE_HEADER_LENGTH as int),
    {
        let len = write_be_u32(self.length);
        let sid = write_be_u32(self.stream_id);
        buf.set(0, len[0]);
        buf.set(1, len[1]);
        buf.set(2, len[2]);
        buf.set(3, len[3]);
        buf.set(4, sid[0]);
        buf.set(5, sid[1]);
        buf.set(6, sid[2]);
        buf.set(7, sid[3]);
        buf.set(8, self.type_);
        buf.set(9, self.flags);
        assert(buf@ =~= header_bytes(self) + old(buf)@.skip(MESSAGE_HEADER_LENGTH as int));
    }

    /// The ten wire bytes of this header.
    pub fn to_bytes(self) -> (buf: Vec<u8>)
        ensures
            buf@ == header_bytes(self),
    {
        let mut buf: Vec<u8> = vec![0u8; 10];
        self.into_buf(&mut buf);
        assert(buf@ =~= header_bytes(self));
        buf
    }
}

/// Text of the error for a payload of `len` bytes that exceeds the limit.
pub open spec fn oversize_text(len: nat) -> Seq<char> {
    "message length "@ + decimal(len) + " exceed maximum message size of "@ + decimal(
        MESSAGE_LENGTH_MAX as nat,
    )
}

/// The error for a payload of `len` bytes over the limit: an `INVALID_ARGUMENT`
/// status when `rpc` holds, else an [`Error::Others`].
pub open spec fn oversize_error(len: nat, rpc: bool) -> ErrorView {
    if rpc {
        ErrorView::RpcStatus(status_view(Code::INVALID_ARGUMENT, oversize_text(len)))
    } else {
        ErrorView::Others(oversize_text(len))
    }
}

/// Checks a payload length against [`MESSAGE_LENGTH_MAX`].
pub fn check_oversize(len: usize, return_rpc_error: bool) -> (r: Result<(), Error>)
    ensures
        r is Ok <==> len <= MESSAGE_LENGTH_MAX,
        r matches Err(e) ==> e@ == oversize_error(len as nat, return_rpc_error),
{
    if len > MESSAGE_LENGTH_MAX {
        let mut msg = String::from_str("message length ");
        let a = usize_text(len);
        msg.append(a.as_str());
        msg.append(" exceed maximum message size of ");
        let b = usize_text(MESSAGE_LENGTH_MAX);
        msg.append(b.as_str());
        let e = if return_rpc_error {
            crate::error::get_rpc_status(Code::INVALID_ARGUMENT, msg)
        } else {
            Error::Others(msg)
        };
        return Err(e);
    }
    Ok(())
}

/// A frame with an untyped byte payload.
#[derive(Debug, PartialEq, Eq)]
pub struct GenMessage {
    /// Wire header describing the payload.
    pub header: MessageHeader,
    /// Frame payload.
    pub payload: Vec<u8>,
}

/// The mathematical content of a [`GenMessage`].
pub struct GenMessageView {
    pub header: MessageHeader,
    pub payload: Seq<u8>,
}

impl View for GenMessage {
    type V = GenMessageView;

    open spec fn view(&self) -> GenMessageView {
        GenMessageView { header: self.header, payload: self.payload@ }
    }
}

impl Default for GenMessage {
    /// A frame with an all-zero header and no payload.
    fn default() -> (m: Self)
        ensures
            m@ == (GenMessageView {
                header: MessageHeader { length: 0, stream_id: 0, type_: 0, flags: 0 },
                payload: Seq::empty(),
            }),
    {
        GenMessage { header: MessageHeader::default(), payload: Vec::new() }
    }
}

impl Clone for GenMessage {
    fn clone(&self) -> (r: Self)
        ensures
            r@ == self@,
    {
        GenMessage { header: self.header, payload: crate::messages::copy_bytes(&self.payload) }
    }
}

/// Errors that can occur while reading an untyped frame.
#[derive(Debug, PartialEq)]
pub enum GenMessageError {
    /// An I/O, transport or protocol error handled locally.
    InternalError(Error),
    /// A protocol error to be returned to the peer for the given header.
    ReturnError(MessageHeader, Error),
}

impl GenMessageError {
    /// Wraps an error to be handled locally.
    pub fn from_error(e: Error) -> (r: GenMessageError)
        ensures
            r matches GenMessageError::InternalError(x) && x@ == e@,
    {
        GenMessageError::InternalError(e)
    }
}

impl GenMessage {
    /// Creates a DATA frame for `stream_id` carrying `payload`; the header length
    /// is the payload length truncated to 32 bits.
    pub fn new_data(stream_id: u32, payload: Vec<u8>) -> (m: Self)
        ensures
            m@.header == (MessageHeader {
                length: payload@.len() as u32,
                stream_id,
                type_: MESSAGE_TYPE_DATA,
                flags: 0,
            }),
            m@.payload == payload@,
    {
        let len = payload.len() as u32;
        GenMessage { header: MessageHeader::new_data(stream_id, len), payload }
    }

    /// Creates a RESPONSE frame for `stream_id` carrying `payload`; the header
    /// length is the payload length truncated to 32 bits.
    pub fn new_response(stream_id: u32, payload: Vec<u8>) -> (m: Self)
        ensures
            m@.header == (MessageHeader {
                length: payload@.len() as u32,
                stream_id,
                type_: MESSAGE_TYPE_RESPONSE,
                flags: 0,
            }),
            m@.payload == payload@,
    {
        let len = payload.len() as u32;
        GenMessage { header: MessageHeader::new_response(stream_id, len), payload }
    }

    /// Creates the empty DATA frame that closes the sender's half of a stream:
    /// flags `FLAG_REMOTE_CLOSED | FLAG_NO_DATA`.
    pub fn new_close(stream_id: u32) -> (m: Self)
        ensures
            m@.header == (MessageHeader {
                length: 0,
                stream_id,
                type_: MESSAGE_TYPE_DATA,
                flags: FLAG_REMOTE_CLOSED | FLAG_NO_DATA,
            }),
            m@.payload == Seq::<u8>::empty(),
    {
        let mut header = MessageHeader::new_data(stream_id, 0);
        header.set_flags(FLAG_REMOTE_CLOSED | FLAG_NO_DATA);
        GenMessage { header, payload: Vec::new() }
    }

    /// Checks the payload length that the header declares against the limit,
    /// answering with an `INVALID_ARGUMENT` status when it is exceeded.
    pub fn check(&self) -> (r: Result<(), Error>)
        ensures
            r is Ok <==> self.header.length <= MESSAGE_LENGTH_MAX,
            r matches Err(e) ==> e@ == oversize_error(self.header.length as nat, true),
    {
        check_oversize(self.header.length as usize, true)
    }
}

/// Encodes and decodes values carried by frames.
pub trait Codec: View + Sized {
    /// The bytes that [`Codec::encode`] produces for a value with view `v`.
    spec fn spec_encode(v: Self::V) -> Seq<u8>;

    /// Merging `bytes` into a value with view `v`: the view afterwards, and the
    /// fault that stopped the merge, if any.
    spec fn spec_merge(v: Self::V, bytes: Seq<u8>) -> (Self::V, Option<WireFault>);

    /// The view of the value that decoding starts from.
    spec fn spec_default() -> Self::V;

    /// The encoded size of this value in bytes, truncated to 32 bits.
    fn size(&self) -> (n: u32)
        ensures
            n == Self::spec_encode(self@).len() as u32,
    ;

    /// Encodes this value into a new byte buffer.
    fn encode(&self) -> (r: Result<Vec<u8>, CodecError>)
        ensures
            r matches Ok(b) && b@ == Self::spec_encode(self@),
    ;

    /// Decodes a value from `buf`.
    fn decode(buf: &[u8]) -> (r: Result<Self, CodecError>)
        ensures
            ({
                let (v, f) = Self::spec_merge(Self::spec_default(), buf@);
                match r {
                    Ok(m) => f is None && m@ == v,
                    Err(e) => f == Some(e@),
                }
            }),
    ;

    /// Merges encoded bytes into this value. Fields read before a failure stay
    /// merged.
    fn merge(&mut self, buf: &[u8]) -> (r: Result<(), CodecError>)
        ensures
            ({
                let (v, f) = Self::spec_merge(old(self)@, buf@);
                &&& final(self)@ == v
                &&& match r {
                    Ok(_) => f is None,
                    Err(e) => f == Some(e@),
                }
            }),
    ;
}

/// Builders for requests, used by generated client code.
pub trait RequestInit: Default {
    /// Creates a request with the routing and metadata fields set.
    fn init_request(service: String, method: String, timeout_nano: i64, metadata: Vec<KeyValue>) -> Self;

    /// Replaces the request payload.
    fn set_payload(&mut self, payload: Vec<u8>);
}

/// Builders and accessors for responses, used by generated server code.
pub trait ResponseInit: Default {
    /// Creates a response carrying the given status.
    fn init_status(status: Status) -> Self;

    /// Replaces the response payload.
    fn set_payload(&mut self, payload: Vec<u8>);

    /// Replaces the response status.
    fn set_status(&mut self, status: Status);

    /// The status when it is present and its code is not `OK`.
    fn non_ok(&self) -> Option<Status>;
}

/// A frame with a typed payload.
#[derive(Default, Debug, Clone, PartialEq, Eq)]
pub struct Message<C> {
    /// Wire header describing the payload.
    pub header: MessageHeader,
    /// Decoded frame payload.
    pub payload: C,
}

impl<C: Codec> Message<C> {
    /// Creates a request frame for `message` on `stream_id`, whose header length
    /// is the encoded size of the message; fails with [`Error::Others`] when that
    /// size exceeds [`MESSAGE_LENGTH_MAX`].
    pub fn new_request(stream_id: u32, message: C) -> (r: Result<Self, Error>)
        ensures
            ({
                let size = C::spec_encode(message@).len() as u32;
                &&& r is Ok <==> size <= MESSAGE_LENGTH_MAX
                &&& r matches Ok(m) ==> m.header == (MessageHeader {
                    length: size,
                    stream_id,
                    type_: MESSAGE_TYPE_REQUEST,
                    flags: 0,
                }) && m.payload@ == message@
                &&& r matches Err(e) ==> e@ == oversize_error(size as nat, false)
            }),
    {
        let size = message.size();
        check_oversize(size as usize, false)?;
        Ok(Message { header: MessageHeader::new_request(stream_id, size), payload: message })
    }

    /// Decodes the payload of an untyped frame, keeping its header.
    pub fn from_gen(gen: GenMessage) -> (r: Result<Self, CodecError>)
        ensures
            ({
                let (v, f) = C::spec_merge(C::spec_default(), gen@.payload);
                match r {
                    Ok(m) => f is None && m.header == gen.header && m.payload@ == v,
                    Err(e) => f == Some(e@),
                }
            }),
    {
        let payload = C::decode(gen.payload.as_slice())?;
        Ok(Message { header: gen.header, payload })
    }

    /// Encodes the payload into an untyped frame with the same header.
    pub fn into_gen(self) -> (r: Result<GenMessage, CodecError>)
        ensures
            r matches Ok(g) && g.header == self.header && g@.payload == C::spec_encode(self.payload@),
    {
        let payload = self.payload.encode()?;
        Ok(GenMessage { header: self.header, payload })
    }
}

} // verus!
