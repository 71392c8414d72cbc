//! Sending responses back through a connection's outbound channel.

use crate::codec::{
    bytes_field, int32_field, repeated, response_bytes, status_bytes, status_part, string_field,
    detail_field,
};
use crate::messages::{code_number, AnyView, StatusView};
use crate::wire::{uint_field, varint_bytes};
use vstd::utf8::{encode_utf8, is_ascii_chars, is_ascii_chars_concat, is_ascii_chars_encode_utf8};
use crate::error::{error_status, get_status, is_error_text, Error, ErrorView};
use crate::messages::{status_view, Code, Response, ResponseView};
use crate::proto::{Codec, MessageHeader, MESSAGE_LENGTH_MAX, MESSAGE_TYPE_RESPONSE};
use crate::security_extension::{
    aad_bytes, framed, outbound_buf_outcome, raw_limit, send_outcome, serialize_aad, size_checked,
    ConnectionContext, FrameSender,
};
use crate::text::{decimal, lemma_decimal_u64, usize_text};
use vstd::prelude::*;
use vstd::string::*;

verus! {

/// The text of the status that replaces a response of `len` bytes over `max`.
pub open spec fn limit_text(len: nat, max: nat) -> Seq<char> {
    "response payload "@ + decimal(len) + " bytes exceeds safe limit "@ + decimal(max)
        + " bytes (after transform overhead)"@
}

/// The response that replaces one whose encoding of `len` bytes is over `max`:
/// an `INVALID_ARGUMENT` status and no payload.
pub open spec fn limit_response(len: nat, max: nat) -> ResponseView {
    ResponseView {
        status: Some(status_view(Code::INVALID_ARGUMENT, limit_text(len, max))),
        payload: Seq::empty(),
    }
}

/// The bytes sent for `res` when at most `max` raw bytes fit: its encoding, or
/// the encoding of the replacement error response when the encoding is longer.
pub open spec fn bounded_response_bytes(res: ResponseView, max: nat) -> Seq<u8> {
    let len = response_bytes(res).len();
    if len > max {
        response_bytes(limit_response(len, max))
    } else {
        response_bytes(res)
    }
}

/// The replacement for an answer that is too large is small: whenever the
/// limit is at least 128 bytes, what is sent for any answer fits within it.
pub proof fn lemma_bounded_response_fits(res: ResponseView, max: nat)
    requires
        128 <= max <= usize::MAX,
        response_bytes(res).len() <= usize::MAX,
    ensures
        bounded_response_bytes(res, max).len() <= max,
{
    let len = response_bytes(res).len();
    if len > max {
        let text = limit_text(len, max);
        let a = "response payload "@;
        let b = " bytes exceeds safe limit "@;
        let c = " bytes (after transform overhead)"@;
        reveal_strlit("response payload ");
        reveal_strlit(" bytes exceeds safe limit ");
        reveal_strlit(" bytes (after transform overhead)");
        lemma_decimal_u64(len);
        lemma_decimal_u64(max);
        let d1 = decimal(len);
        let d2 = decimal(max);
        assert(a.len() == 17 && b.len() == 26 && c.len() == 33);
        assert(is_ascii_chars(a) && is_ascii_chars(b) && is_ascii_chars(c));
        is_ascii_chars_concat(a + d1, a, d1);
        is_ascii_chars_concat(a + d1 + b, a + d1, b);
        is_ascii_chars_concat(a + d1 + b + d2, a + d1 + b, d2);
        is_ascii_chars_concat(text, a + d1 + b + d2, c);
        is_ascii_chars_encode_utf8(text);
        let body = encode_utf8(text);
        assert(body.len() <= 116);
        let st = StatusView {
            code: code_number(Code::INVALID_ARGUMENT),
            message: text,
            details: Seq::<AnyView>::empty(),
        };
        assert(varint_bytes(8) =~= seq![8u8]);
        assert(varint_bytes(3) =~= seq![3u8]);
        assert(varint_bytes(18) =~= seq![18u8]);
        assert(varint_bytes(10) =~= seq![10u8]);
        assert(varint_bytes(body.len()) == seq![body.len() as u8]);
        assert(int32_field(1, st.code) == uint_field(1, 3));
        assert(uint_field(1, 3).len() == 2);
        assert(string_field(2, text).len() == body.len() + 2);
        assert(repeated(st.details, |d: AnyView| detail_field(d)) =~= Seq::<u8>::empty());
        let sb = status_bytes(st);
        assert(sb.len() <= 120);
        assert(varint_bytes(sb.len()) == seq![sb.len() as u8]);
        assert(status_part(Some(st)).len() == sb.len() + 2);
        assert(bytes_field(2, Seq::<u8>::empty()).len() == 0);
        assert(limit_response(len, max).status == Some(st));
        assert(response_bytes(limit_response(len, max)).len() <= 122);
    }
}

/// Encodes a response for sending when at most `max_len` raw bytes fit after the
/// connection's transform; a longer encoding is replaced by the encoding of an
/// `INVALID_ARGUMENT` response that says so, so that a stateful transform never
/// runs on a payload that would be refused.
pub fn bounded_response(res: &Response, max_len: usize) -> (buf: Vec<u8>)
    ensures
        buf@ == bounded_response_bytes(res@, max_len as nat),
{
    let buf = match res.encode() {
        Ok(b) => b,
        Err(_) => Vec::new(),
    };
    if buf.len() > max_len {
        let mut msg = String::from_str("response payload ");
        let a = usize_text(buf.len());
        msg.append(a.as_str());
        msg.append(" bytes exceeds safe limit ");
        let b = usize_text(max_len);
        msg.append(b.as_str());
        msg.append(" bytes (after transform overhead)");
        let err_resp = Response::from_error(Error::RpcStatus(get_status(Code::INVALID_ARGUMENT, msg)));
        match err_resp.encode() {
            Ok(b) => b,
            Err(_) => Vec::new(),
        }
    } else {
        buf
    }
}

/// The header of a response frame for `stream_id`, before its length is set.
pub open spec fn response_header(stream_id: u32) -> MessageHeader {
    MessageHeader { length: 0, stream_id, type_: MESSAGE_TYPE_RESPONSE, flags: 0 }
}

/// Whether `res` is a response that describes error `e`: no payload, and the
/// error's own status, or `UNKNOWN` with the error's text.
pub open spec fn describes_error(res: ResponseView, e: ErrorView) -> bool {
    &&& res.payload.len() == 0
    &&& e is RpcStatus ==> res.status == Some(error_status(e, Seq::empty()))
    &&& !(e is RpcStatus) ==> (res.status matches Some(s) && s.code == code_number(Code::UNKNOWN)
        && s.details.len() == 0 && is_error_text(e, s.message))
}

/// Sends a response for `stream_id` through `tx`: encodes it, replaces it by an
/// error response when it would not fit after the connection's transform, then
/// transforms and frames it and hands the frame to the channel, under the
/// connection's outbound lock.
pub fn send_response<D>(
    stream_id: u32,
    res: Response,
    tx: &mut FrameSender,
    ctx: &ConnectionContext<D>,
) -> (r: Result<(), Error>)
    ensures
        !ctx.has_transform() ==> send_outcome(
            old(tx).sent(),
            final(tx).sent(),
            framed(response_header(stream_id), size_checked(bounded_response_bytes(res@, MESSAGE_LENGTH_MAX as nat), true)),
            r,
        ),
        ctx.has_transform() ==> exists|o1: nat, o2: nat, t: Result<Seq<u8>, Seq<char>>|
            ctx.declared_overhead(o1) && ctx.declared_overhead(o2) && (bounded_response_bytes(res@, raw_limit(o1)).len()
                <= raw_limit(o2) ==> ctx.outbound_gives(
                bounded_response_bytes(res@, raw_limit(o1)),
                aad_bytes(response_header(stream_id)),
                t,
            )) && send_outcome(
                old(tx).sent(),
                final(tx).sent(),
                framed(
                    response_header(stream_id),
                    outbound_buf_outcome(bounded_response_bytes(res@, raw_limit(o1)).len(), raw_limit(o2), t, true),
                ),
                r,
            ),
        ctx.has_transform() ==> (r is Ok ==> exists|o1: nat|
            ctx.declared_overhead(o1) && ctx.outbound_gives(
                bounded_response_bytes(res@, raw_limit(o1)),
                aad_bytes(final(tx).sent().last().0),
                Ok(final(tx).sent().last().1),
            )),
{
    let max_len = ctx.max_raw_payload_len();
    let buf = bounded_response(&res, max_len);
    let ghost o1 = choose|o: nat| max_len == raw_limit(o);
    let aad = serialize_aad(&MessageHeader::new_response(stream_id, 0));
    let mh = MessageHeader { length: 0, stream_id, type_: MESSAGE_TYPE_RESPONSE, flags: 0 };
    let r = ctx.send_response_sync(buf, &aad, tx, mh);
    proof {
        if ctx.has_transform() {
            let (o2, t) = choose|o2: nat, t: Result<Seq<u8>, Seq<char>>| ctx.declared_overhead(o2) && (buf@.len()
                <= raw_limit(o2) ==> ctx.outbound_gives(buf@, aad@, t)) && send_outcome(
                old(tx).sent(),
                final(tx).sent(),
                framed(mh, outbound_buf_outcome(buf@.len(), raw_limit(o2), t, true)),
                r,
            );
            assert(send_outcome(
                old(tx).sent(),
                final(tx).sent(),
                framed(
                    response_header(stream_id),
                    outbound_buf_outcome(bounded_response_bytes(res@, raw_limit(o1)).len(), raw_limit(o2), t, true),
                ),
                r,
            ));
        }
    }
    r
}

/// Sends a response through `tx` on a connection without a payload transform.
pub fn response_to_channel(stream_id: u32, res: Response, tx: &mut FrameSender) -> (r: Result<(), Error>)
    ensures
        send_outcome(
            old(tx).sent(),
            final(tx).sent(),
            framed(response_header(stream_id), size_checked(bounded_response_bytes(res@, MESSAGE_LENGTH_MAX as nat), true)),
            r,
        ),
{
    let ctx: ConnectionContext<()> = ConnectionContext::default();
    send_response(stream_id, res, tx, &ctx)
}

/// Sends the response that describes `e` through `tx`.
pub fn response_error_to_channel<D>(
    stream_id: u32,
    e: Error,
    tx: &mut FrameSender,
    ctx: &ConnectionContext<D>,
) -> (r: Result<(), Error>)
    ensures
        exists|res: ResponseView| {
            &&& describes_error(res, e@)
            &&& !ctx.has_transform() ==> send_outcome(
                old(tx).sent(),
                final(tx).sent(),
                framed(response_header(stream_id), size_checked(bounded_response_bytes(res, MESSAGE_LENGTH_MAX as nat), true)),
                r,
            )
            &&& ctx.has_transform() ==> exists|o1: nat, o2: nat, t: Result<Seq<u8>, Seq<char>>|
                ctx.declared_overhead(o1) && ctx.declared_overhead(o2) && (bounded_response_bytes(res, raw_limit(o1)).len()
                    <= raw_limit(o2) ==> ctx.outbound_gives(
                    bounded_response_bytes(res, raw_limit(o1)),
                    aad_bytes(response_header(stream_id)),
                    t,
                )) && send_outcome(
                    old(tx).sent(),
                    final(tx).sent(),
                    framed(
                        response_header(stream_id),
                        outbound_buf_outcome(bounded_response_bytes(res, raw_limit(o1)).len(), raw_limit(o2), t, true),
                    ),
                    r,
                )
        },
{
    let ghost ev = e@;
    let res = Response::from_error(e);
    let ghost rv = res@;
    let r = send_response(stream_id, res, tx, ctx);
    assert(describes_error(rv, ev));
    r
}

} // verus!
