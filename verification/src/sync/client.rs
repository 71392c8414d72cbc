//! The decisions of the blocking client: stream ids, request framing, routing
//! of responses to waiting callers, and the outcome of a request.

use crate::codec::{request_bytes, response_default, response_merge};
use crate::error::{bytes_debug, bytes_debug_text, is_error_debug_text, Error, ErrorView};
use crate::messages::{Request, Response};
use crate::proto::{
    check_oversize, Codec, MessageHeader, ResponseInit, MESSAGE_LENGTH_MAX, MESSAGE_TYPE_REQUEST,
    MESSAGE_TYPE_RESPONSE,
};
use crate::security_extension::{
    aad_bytes, buf_outcome, buf_result_view, outbound_buf_outcome, raw_limit, serialize_aad, size_checked,
    ConnectionContext,
};
use crate::wire::fault_description;
use crate::asynchronous::client::{header_debug, header_debug_text};
use crate::text::join3;
use std::collections::HashMap;
use vstd::prelude::*;
use vstd::string::*;

verus! {

broadcast use vstd::std_specs::hash::group_hash_axioms;

/// The stream id after `id`: client streams take the odd ids in turn.
pub fn next_stream_id(id: u32) -> (n: u32)
    requires
        id <= u32::MAX - 2,
    ensures
        n == id + 2,
{
    id + 2
}

/// The stream ids a client hands out, starting at 1 and stepping with
/// [`next_stream_id`], are odd: the server never refuses them as even.
pub proof fn lemma_client_stream_ids_odd(id: u32)
    requires
        id % 2 == 1,
        id <= u32::MAX - 2,
    ensures
        (id + 2) % 2 == 1,
{
}

/// The stream ids a client hands out to its requests, in order: the `k`-th
/// request (from zero) gets `2k + 1`, so every id is odd and each is larger
/// than the one before.
pub struct StreamIds {
    next: u32,
    taken: Ghost<nat>,
}

impl StreamIds {
    #[verifier::type_invariant]
    closed spec fn counts(&self) -> bool {
        self.next == 2 * self.taken@ + 1
    }

    /// How many ids have been handed out.
    pub closed spec fn taken(&self) -> nat {
        self.taken@
    }

    /// The id the next request gets.
    pub closed spec fn next_id(&self) -> u32 {
        self.next
    }

    /// No id handed out yet; the first is 1.
    pub fn new() -> (s: Self)
        ensures
            s.taken() == 0,
            s.next_id() == 1,
    {
        StreamIds { next: 1, taken: Ghost(0) }
    }

    /// The id the next request gets.
    pub fn peek(&self) -> (n: u32)
        ensures
            n == self.next_id(),
    {
        self.next
    }

    /// Hands out the next id. Every request takes one, whether or not it is
    /// sent.
    pub fn take(&mut self) -> (id: u32)
        requires
            old(self).next_id() <= u32::MAX - 2,
        ensures
            id == kth_stream_id(old(self).taken()),
            id == old(self).next_id(),
            id % 2 == 1,
            final(self).taken() == old(self).taken() + 1,
            final(self).next_id() == id + 2,
    {
        proof {
            use_type_invariant(&*self);
        }
        let id = self.next;
        *self = StreamIds { next: next_stream_id(id), taken: Ghost(self.taken@ + 1) };
        id
    }
}

/// Encodes a request for sending; an encoding over [`MESSAGE_LENGTH_MAX`] is
/// refused before anything is sent.
pub fn prepare_request(req: &Request) -> (r: Result<Vec<u8>, Error>)
    ensures
        buf_result_view(r) == size_checked(request_bytes(req@), false),
{
    let buf = match req.encode() {
        Ok(b) => b,
        Err(_) => Vec::new(),
    };
    match check_oversize(buf.len(), false) {
        Ok(()) => Ok(buf),
        Err(e) => Err(e),
    }
}

/// How long a request waits for its response: forever when the timeout is
/// zero, else the timeout in nanoseconds, read as unsigned.
pub fn request_wait(timeout_nano: i64) -> (w: Option<u64>)
    ensures
        timeout_nano == 0 ==> w is None,
        timeout_nano != 0 ==> w == Some(timeout_nano as u64),
{
    if timeout_nano == 0 {
        None
    } else {
        Some(timeout_nano as u64)
    }
}

/// The header of a request frame for `stream_id`, before its length is set.
pub open spec fn request_header(stream_id: u32) -> MessageHeader {
    MessageHeader { length: 0, stream_id, type_: MESSAGE_TYPE_REQUEST, flags: 0 }
}

/// Frames an encoded request for `stream_id`: the connection's outbound
/// pipeline runs on the payload and the header's length is set to what it
/// produced.
pub fn frame_request<D>(ctx: &ConnectionContext<D>, stream_id: u32, buf: Vec<u8>) -> (r: Result<
    (MessageHeader, Vec<u8>),
    Error,
>)
    ensures
        r matches Ok((h, b)) ==> h == (MessageHeader {
            length: b@.len() as u32,
            stream_id,
            type_: MESSAGE_TYPE_REQUEST,
            flags: 0,
        }),
        !ctx.has_transform() ==> frame_payload(r) == size_checked(buf@, false),
        ctx.has_transform() ==> exists|o: nat, t: Result<Seq<u8>, Seq<char>>|
            ctx.declared_overhead(o) && (buf@.len() <= raw_limit(o) ==> ctx.outbound_gives(
                buf@,
                aad_bytes(request_header(stream_id)),
                t,
            )) && frame_payload(r) == outbound_buf_outcome(buf@.len(), raw_limit(o), t, false),
        ctx.has_transform() ==> (r matches Ok((h, b)) ==> ctx.outbound_gives(buf@, aad_bytes(h), Ok(b@))),
{
    let mut mh = MessageHeader::new_request(0, buf.len() as u32);
    mh.set_stream_id(stream_id);
    let aad = serialize_aad(&mh);
    match ctx.outbound_buf(buf, &aad, false) {
        Ok(t) => {
            mh.length = t.len() as u32;
            Ok((mh, t))
        },
        Err(e) => Err(e),
    }
}

/// The stream id of the `k`-th request a client sends, counting from zero.
pub open spec fn kth_stream_id(k: nat) -> nat {
    2 * k + 1
}

/// The stream ids of a client's requests are odd and strictly increasing:
/// the `k`-th gets [`kth_stream_id`]`(k)`, as [`StreamIds::take`] and
/// [`frame_next_request`] ensure, and a later request always gets a larger id.
pub proof fn lemma_stream_ids_odd_increasing(j: nat, k: nat)
    requires
        j < k,
    ensures
        kth_stream_id(j) % 2 == 1,
        kth_stream_id(k) % 2 == 1,
        kth_stream_id(j) < kth_stream_id(k),
        kth_stream_id(k) - kth_stream_id(j) == 2 * (k - j),
{
}

/// The sender's step for one request: takes the next stream id, whether or
/// not the request can be framed, and frames the encoded request `buf` under
/// it as [`frame_request`] does.
pub fn frame_next_request<D>(ids: &mut StreamIds, ctx: &ConnectionContext<D>, buf: Vec<u8>) -> (r: Result<
    (MessageHeader, Vec<u8>),
    Error,
>)
    requires
        old(ids).next_id() <= u32::MAX - 2,
    ensures
        final(ids).taken() == old(ids).taken() + 1,
        r matches Ok((h, b)) ==> h == (MessageHeader {
            length: b@.len() as u32,
            stream_id: kth_stream_id(old(ids).taken()) as u32,
            type_: MESSAGE_TYPE_REQUEST,
            flags: 0,
        }),
        !ctx.has_transform() ==> frame_payload(r) == size_checked(buf@, false),
        ctx.has_transform() ==> exists|o: nat, t: Result<Seq<u8>, Seq<char>>|
            ctx.declared_overhead(o) && (buf@.len() <= raw_limit(o) ==> ctx.outbound_gives(
                buf@,
                aad_bytes(request_header(kth_stream_id(old(ids).taken()) as u32)),
                t,
            )) && frame_payload(r) == outbound_buf_outcome(buf@.len(), raw_limit(o), t, false),
        ctx.has_transform() ==> (r matches Ok((h, b)) ==> ctx.outbound_gives(buf@, aad_bytes(h), Ok(b@))),
{
    let stream_id = ids.take();
    frame_request(ctx, stream_id, buf)
}

/// The payload of a framing result, seen as a sequence.
pub open spec fn frame_payload(r: Result<(MessageHeader, Vec<u8>), Error>) -> Result<Seq<u8>, ErrorView> {
    match r {
        Ok((h, b)) => Ok(b@),
        Err(e) => Err(e@),
    }
}

/// The payload a reader hands on for a frame it read: the connection's inbound
/// pipeline on the body, or the error reading it produced.
pub fn inbound_payload<D>(ctx: &ConnectionContext<D>, mh: &MessageHeader, read: Result<Vec<u8>, Error>) -> (r:
    Result<Vec<u8>, Error>)
    ensures
        read matches Err(e) ==> (r matches Err(x) && x@ == e@),
        !ctx.has_transform() ==> (read matches Ok(data) ==> buf_result_view(r) == size_checked(data@, false)),
        ctx.has_transform() ==> (read matches Ok(data) ==> exists|t: Result<Seq<u8>, Seq<char>>|
            ctx.inbound_gives(data@, aad_bytes(*mh), t) && buf_result_view(r) == buf_outcome(
                t,
                "transform_inbound"@,
                false,
            )),
{
    match read {
        Ok(data) => {
            let aad = serialize_aad(mh);
            ctx.inbound_buf(data, &aad, false)
        },
        Err(e) => Err(e),
    }
}

/// The text of the error for a failed read of the response stream.
pub open spec fn socket_failure_text(detail: Seq<char>) -> Seq<char> {
    "socket error "@ + detail
}

/// What a failed frame read means to the response reader: a socket error ends
/// the connection, and every waiting caller gets a socket error that says so;
/// any other error is skipped.
pub fn read_failure(e: &Error) -> (r: Option<Error>)
    ensures
        match e@ {
            ErrorView::Socket(y) => r matches Some(x) && x@ == ErrorView::Socket(socket_failure_text(y)),
            _ => r is None,
        },
{
    match e {
        Error::Socket(y) => Some(Error::Socket(crate::text::join2("socket error ", y.as_str()))),
        _ => None,
    }
}

/// The text of the error for an answer that could not be decoded.
pub open spec fn unpack_text(detail: Seq<char>) -> Seq<char> {
    "Unpack response error "@ + detail
}

/// The outcome of a request from the bytes its caller received: the reader's
/// error as it is; an undecodable answer as [`Error::Others`]; a status other
/// than `OK` as [`Error::RpcStatus`]; else the decoded response.
pub fn finish_request(result: Result<Vec<u8>, Error>) -> (r: Result<Response, Error>)
    ensures
        match result {
            Err(e) => r matches Err(x) && x@ == e@,
            Ok(b) => {
                let (v, f, q) = response_merge(b@, 0, b@.len(), response_default());
                match f {
                    Some(fault) => r matches Err(x) && x@ is Others && (x@
                        == ErrorView::Others(
                        unpack_text("failed to decode Protobuf message: "@ + fault_description(fault)),
                    )),
                    None => match v.status {
                        Some(st) => if st.code != 0 {
                            r matches Err(x) && x@ == ErrorView::RpcStatus(st)
                        } else {
                            r matches Ok(res) && res@ == v
                        },
                        None => r matches Ok(res) && res@ == v,
                    },
                }
            },
        },
{
    let buf = match result {
        Ok(b) => b,
        Err(e) => {
            return Err(e);
        },
    };
    let res = match Response::decode(buf.as_slice()) {
        Ok(res) => res,
        Err(e) => {
            let t = e.message();
            return Err(Error::Others(crate::text::join2("Unpack response error ", t.as_str())));
        },
    };
    match res.non_ok() {
        Some(status) => Err(Error::RpcStatus(status)),
        None => Ok(res),
    }
}

#[verifier::external_type_specification]
#[verifier::external_body]
#[verifier::reject_recursive_types(T)]
pub struct ExSyncSender<T>(std::sync::mpsc::SyncSender<T>);

/// Whether `t` is the `Debug` rendering of a payload read for a frame: `Ok(`
/// and its bytes, or `Err(` and the error's rendering, then `)`.
pub open spec fn is_payload_debug_text(buf: Result<Vec<u8>, Error>, t: Seq<char>) -> bool {
    match buf {
        Ok(v) => t == "Ok("@ + bytes_debug(v@) + ")"@,
        Err(e) => exists|d: Seq<char>| is_error_debug_text(e@, d) && t == "Err("@ + d + ")"@,
    }
}

/// The text of the error for a frame that is not a response, with the payload
/// read for it rendered as `p`.
pub open spec fn malformed_packet_text(mh: MessageHeader, p: Seq<char>) -> Seq<char> {
    "Recver got malformed packet "@ + header_debug(mh) + " "@ + p
}

/// The `Debug` rendering of a payload read for a frame.
fn payload_debug_text(buf: &Result<Vec<u8>, Error>) -> (t: String)
    ensures
        is_payload_debug_text(*buf, t@),
{
    match buf {
        Ok(v) => {
            let b = bytes_debug_text(v);
            join3("Ok(", b.as_str(), ")")
        },
        Err(e) => {
            let d = e.debug_text();
            let t = join3("Err(", d.as_str(), ")");
            assert(t@ == "Err("@ + d@ + ")"@);
            t
        },
    }
}

/// The text of the error for a frame that is not a response.
fn malformed_text(mh: &MessageHeader, buf: &Result<Vec<u8>, Error>) -> (t: String)
    ensures
        exists|p: Seq<char>| is_payload_debug_text(*buf, p) && t@ == malformed_packet_text(*mh, p),
{
    let h = header_debug_text(mh);
    let p = payload_debug_text(buf);
    let mut t = join3("Recver got malformed packet ", h.as_str(), " ");
    t.append(p.as_str());
    assert(t@ == malformed_packet_text(*mh, p@));
    t
}

/// Whether a read frame is delivered to a waiting caller, and whether the
/// caller's registration ends: a frame for an unknown stream is dropped; a
/// frame of another type than a response is answered with an error and the
/// caller keeps waiting; a response is delivered and ends the registration.
pub open spec fn response_route(registered: bool, mh: MessageHeader) -> (bool, bool) {
    if !registered {
        (false, false)
    } else if mh.type_ != MESSAGE_TYPE_RESPONSE {
        (true, false)
    } else {
        (true, true)
    }
}

/// Settles a read frame against the callers waiting on their streams, as
/// [`response_route`] says: returns what the caller registered under the
/// frame's stream receives (nothing for an unknown stream; the malformed-packet
/// error for a frame that is not a response; the payload read for a response),
/// and removes the caller once it has its response.
pub fn trans_resp(
    map: &mut HashMap<u32, std::sync::mpsc::SyncSender<Result<Vec<u8>, Error>>>,
    mh: MessageHeader,
    buf: Result<Vec<u8>, Error>,
) -> (r: Option<Result<Vec<u8>, Error>>)
    ensures
        response_route(old(map)@.contains_key(mh.stream_id), mh).1 ==> final(map)@ == old(map)@.remove(mh.stream_id),
        !response_route(old(map)@.contains_key(mh.stream_id), mh).1 ==> final(map)@ == old(map)@,
        !response_route(old(map)@.contains_key(mh.stream_id), mh).0 ==> r is None,
        response_route(old(map)@.contains_key(mh.stream_id), mh) == (true, true) ==> r == Some(buf),
        response_route(old(map)@.contains_key(mh.stream_id), mh) == (true, false) ==> (r matches Some(Err(x))
            && exists|p: Seq<char>| is_payload_debug_text(buf, p) && x@ == ErrorView::Others(
                malformed_packet_text(mh, p),
            )),
{
    if !map.contains_key(&mh.stream_id) {
        return None;
    }
    if mh.type_ != MESSAGE_TYPE_RESPONSE {
        let t = malformed_text(&mh, &buf);
        return Some(Err(Error::Others(t)));
    }
    map.remove(&mh.stream_id);
    Some(buf)
}

} // verus!
