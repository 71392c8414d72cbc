//! The decisions of the blocking server: the bounds of the worker pool, what a
//! worker does with each frame, and how method results become responses.

use crate::asynchronous::utils::{get_path, path_of};
use crate::codec::{request_default, request_merge};
use crate::context::{to_pb, Context};
use crate::error::{error_status, get_status, is_error_debug_text, is_error_text, Error, ErrorView};
use crate::messages::{status_view, Code, Request, Response, ResponseView};
use crate::proto::{Codec, MessageHeader, RequestInit, ResponseInit, MESSAGE_TYPE_REQUEST};
use crate::wire::fault_description;
use crate::proto::MESSAGE_LENGTH_MAX;
use crate::security_extension::{
    aad_bytes, framed, outbound_buf_outcome, raw_limit, send_outcome, size_checked, ConnectionContext,
    FrameSender,
};
use crate::sync::utils::{bounded_response_bytes, response_header, send_response};
use vstd::prelude::*;
use vstd::string::*;

verus! {

/// Workers a connection starts with.
pub const DEFAULT_WAIT_THREAD_COUNT_DEFAULT: usize = 3;

/// Fewest idle workers before more are started.
pub const DEFAULT_WAIT_THREAD_COUNT_MIN: usize = 1;

/// Most idle workers; a worker beyond this quits.
pub const DEFAULT_WAIT_THREAD_COUNT_MAX: usize = 5;

/// Checks the worker-pool bounds before the server starts: the default must lie
/// strictly between the minimum and the maximum.
pub fn check_thread_counts(default: usize, min: usize, max: usize) -> (r: Result<(), Error>)
    ensures
        r is Ok <==> min < default && default < max,
        default >= max ==> (r matches Err(e) && e@ == ErrorView::Others(
            "thread_count_default should smaller than thread_count_max"@,
        )),
        default < max && default <= min ==> (r matches Err(e) && e@ == ErrorView::Others(
            "thread_count_default should bigger than thread_count_min"@,
        )),
{
    if default >= max {
        return Err(Error::Others(String::from_str("thread_count_default should smaller than thread_count_max")));
    }
    if default <= min {
        return Err(Error::Others(String::from_str("thread_count_default should bigger than thread_count_min")));
    }
    Ok(())
}

/// Whether a worker that finds `waiting` idle workers may join them: not when
/// that would make more than `max`.
pub open spec fn admits(waiting: nat, max: nat) -> bool {
    waiting + 1 <= max
}

/// Whether a worker that finds `waiting` idle workers may join them: it quits
/// when that would make more than `max`.
pub fn worker_admitted(waiting: usize, max: usize) -> (b: bool)
    requires
        waiting < usize::MAX,
    ensures
        b == admits(waiting as nat, max as nat),
{
    waiting + 1 <= max
}

/// Whether a worker that leaves `waiting` idle workers (itself included) to
/// take a job must ask for more: when fewer than `min` would remain idle.
pub fn worker_low(waiting: usize, min: usize) -> (b: bool)
    requires
        waiting >= 1,
    ensures
        b == (waiting - 1 < min),
{
    waiting - 1 < min
}

/// How many workers to start when `count` are idle: enough to reach `default`
/// when fewer than `min` are idle, else none.
pub fn threads_to_start(count: usize, min: usize, default: usize) -> (n: usize)
    requires
        count < min ==> count <= default,
    ensures
        n == if count < min { default - count } else { 0 },
{
    if count < min {
        default - count
    } else {
        0
    }
}

/// Refilling the pool stays within its bounds: once the bounds pass
/// [`check_thread_counts`], the workers started for `count` idle ones bring the
/// pool to `default`, and each of them is admitted by [`worker_admitted`].
pub proof fn lemma_refill_admitted(count: nat, min: nat, default: nat, max: nat)
    requires
        min < default < max,
        count < min,
    ensures
        count + (default - count) == default,
        forall|w: nat| count <= w < default ==> #[trigger] admits(w, max),
{
}

/// Checks that no listener is bound yet: the server binds one address only.
pub fn check_no_listener(listeners: usize) -> (r: Result<(), Error>)
    ensures
        r is Ok <==> listeners == 0,
        r matches Err(e) ==> e@ == ErrorView::Others("ttrpc-rust just support 1 sockaddr now"@),
{
    if listeners != 0 {
        return Err(Error::Others(String::from_str("ttrpc-rust just support 1 sockaddr now")));
    }
    Ok(())
}

/// Checks that a listener is bound before listening.
pub fn check_listener(listeners: usize) -> (r: Result<(), Error>)
    ensures
        r is Ok <==> listeners != 0,
        r matches Err(e) ==> e@ == ErrorView::Others("ttrpc-rust not bind"@),
{
    if listeners == 0 {
        return Err(Error::Others(String::from_str("ttrpc-rust not bind")));
    }
    Ok(())
}

/// What a worker does with one frame.
pub enum Dispatch {
    /// Send this response on the frame's stream.
    Reply(Response),
    /// Ignore the frame.
    Skip,
    /// Call the method registered under `path` with the decoded request.
    Call { path: String, req: Request },
}

/// The response a worker sends for a request it could not decode.
pub open spec fn undecodable_response(text: Seq<char>) -> ResponseView {
    ResponseView { status: Some(status_view(Code::INVALID_ARGUMENT, text)), payload: Seq::empty() }
}

/// Decides what a worker does with a frame and the payload read for it: an
/// error read for the frame is answered with its status; a frame other than a
/// request is skipped; an undecodable request is answered with
/// `INVALID_ARGUMENT`; else the request goes to the method at its path.
pub fn dispatch_workload(mh: &MessageHeader, payload: Result<Vec<u8>, Error>) -> (d: Dispatch)
    ensures
        match payload {
            Err(e) => d matches Dispatch::Reply(res) && res@.payload.len() == 0 && (e@ is RpcStatus
                ==> res@.status == Some(error_status(e@, Seq::empty()))) && (!(e@ is RpcStatus)
                ==> (res@.status matches Some(s) && s.code == crate::messages::code_number(Code::UNKNOWN)
                && s.details.len() == 0 && is_error_text(e@, s.message))),
            Ok(buf) => if mh.type_ != MESSAGE_TYPE_REQUEST {
                d is Skip
            } else {
                let (v, f, q) = request_merge(buf@, 0, buf@.len(), request_default());
                match f {
                    Some(fault) => d matches Dispatch::Reply(res) && res@.payload.len() == 0 && (res@.status
                        matches Some(st) && st.code == crate::messages::code_number(Code::INVALID_ARGUMENT)
                        && st.details.len() == 0) && (res@ == undecodable_response(
                        "failed to decode Protobuf message: "@ + fault_description(fault),
                    )),
                    None => d matches Dispatch::Call { path, req } && req@ == v && path@ == path_of(
                        v.service,
                        v.method,
                    ),
                }
            },
        },
{
    let buf = match payload {
        Ok(b) => b,
        Err(e) => {
            return Dispatch::Reply(Response::from_error(e));
        },
    };
    if mh.type_ != MESSAGE_TYPE_REQUEST {
        return Dispatch::Skip;
    }
    match Request::decode(buf.as_slice()) {
        Err(x) => {
            let status = get_status(Code::INVALID_ARGUMENT, x.message());
            Dispatch::Reply(Response::init_status(status))
        },
        Ok(req) => {
            let path = get_path(req.service.as_str(), req.method.as_str());
            Dispatch::Call { path, req }
        },
    }
}

/// The text of the status for a path no method is registered under.
pub open spec fn missing_method_text(path: Seq<char>) -> Seq<char> {
    path + " does not exist"@
}

/// The response for a request whose path names no registered method.
pub fn missing_method(path: &str) -> (r: Response)
    ensures
        r@ == undecodable_response(missing_method_text(path@)),
{
    let mut t = String::from_str(path);
    t.append(" does not exist");
    Response::init_status(get_status(Code::INVALID_ARGUMENT, t))
}

/// Answers a request whose path names no registered method: exactly one
/// response frame for `stream_id`, carrying the `INVALID_ARGUMENT` status that
/// says the path does not exist.
pub fn refuse_missing_method<D>(
    stream_id: u32,
    path: &str,
    tx: &mut FrameSender,
    ctx: &ConnectionContext<D>,
) -> (r: Result<(), Error>)
    ensures
        !ctx.has_transform() ==> send_outcome(
            old(tx).sent(),
            final(tx).sent(),
            framed(
                response_header(stream_id),
                size_checked(
                    bounded_response_bytes(undecodable_response(missing_method_text(path@)), MESSAGE_LENGTH_MAX as nat),
                    true,
                ),
            ),
            r,
        ),
        ctx.has_transform() ==> exists|o1: nat, o2: nat, t: Result<Seq<u8>, Seq<char>>|
            ctx.declared_overhead(o1) && ctx.declared_overhead(o2) && (bounded_response_bytes(
                undecodable_response(missing_method_text(path@)),
                raw_limit(o1),
            ).len() <= raw_limit(o2) ==> ctx.outbound_gives(
                bounded_response_bytes(undecodable_response(missing_method_text(path@)), raw_limit(o1)),
                aad_bytes(response_header(stream_id)),
                t,
            )) && send_outcome(
                old(tx).sent(),
                final(tx).sent(),
                framed(
                    response_header(stream_id),
                    outbound_buf_outcome(
                        bounded_response_bytes(undecodable_response(missing_method_text(path@)), raw_limit(o1)).len(),
                        raw_limit(o2),
                        t,
                        true,
                    ),
                ),
                r,
            ),
{
    let res = missing_method(path);
    send_response(stream_id, res, tx, ctx)
}

/// The response a generated handler sends for a method's result: the encoded
/// reply under an `OK` status; a status error as that status; any other error
/// as `UNKNOWN` with the error's `Debug` rendering.
pub fn handler_response<R: Codec>(result: Result<R, Error>) -> (r: Response)
    ensures
        match result {
            Ok(rep) => r@ == (ResponseView {
                status: Some(status_view(Code::OK, Seq::empty())),
                payload: R::spec_encode(rep@),
            }),
            Err(e) => r@.payload.len() == 0 && (r@.status matches Some(st) && (e@ is RpcStatus ==> st
                == error_status(e@, Seq::empty())) && (!(e@ is RpcStatus) ==> st.code
                == crate::messages::code_number(Code::UNKNOWN) && st.details.len() == 0
                && is_error_debug_text(e@, st.message))),
        },
{
    match result {
        Ok(rep) => {
            let payload = match rep.encode() {
                Ok(b) => b,
                Err(_) => Vec::new(),
            };
            let mut res = Response::init_status(get_status(Code::OK, String::new()));
            res.set_payload(payload);
            res
        },
        Err(Error::RpcStatus(s)) => Response::init_status(s),
        Err(x) => {
            let t = x.debug_text();
            Response::init_status(get_status(Code::UNKNOWN, t))
        },
    }
}

/// The text of the error for a request a generated handler could not decode.
pub open spec fn unpack_request_text(detail: Seq<char>) -> Seq<char> {
    "Unpack request error "@ + detail
}

/// Decodes the argument of a method call for a generated handler; an
/// undecodable argument is an [`Error::Others`].
pub fn decode_argument<Q: Codec>(payload: &[u8]) -> (r: Result<Q, Error>)
    ensures
        ({
            let (v, f) = Q::spec_merge(Q::spec_default(), payload@);
            match f {
                None => r matches Ok(q) && q@ == v,
                Some(fault) => r matches Err(e) && e@ is Others && (e@
                    == ErrorView::Others(
                    unpack_request_text("failed to decode Protobuf message: "@ + fault_description(fault)),
                )),
            }
        }),
{
    match Q::decode(payload) {
        Ok(q) => Ok(q),
        Err(e) => {
            let t = e.message();
            Err(Error::Others(crate::text::join2("Unpack request error ", t.as_str())))
        },
    }
}

/// The request a generated client sends for a method call: routing, timeout
/// and metadata from the context, and the encoded argument as payload.
pub fn client_request<Q: Codec>(service: &str, method: &str, ctx: Context, req: &Q) -> (r: Request)
    ensures
        r@.service == service@,
        r@.method == method@,
        r@.timeout_nano == ctx.timeout_nano,
        r@.payload == Q::spec_encode(req@),
        r@.metadata == crate::context::flatten_pairs(ctx.metadata.pairs()),
{
    let payload = match req.encode() {
        Ok(b) => b,
        Err(_) => Vec::new(),
    };
    let metadata = to_pb(ctx.metadata);
    let mut creq = Request::init_request(String::from_str(service), String::from_str(method), ctx.timeout_nano, metadata);
    creq.set_payload(payload);
    creq
}

/// The text of the error for an answer a generated client could not merge.
pub open spec fn unpack_get_text(detail: Seq<char>) -> Seq<char> {
    "Unpack get error "@ + detail
}

/// Merges the payload of a response into the value a generated client returns;
/// a payload that does not merge is an [`Error::Others`].
pub fn merge_answer<C: Codec>(cres: &mut C, res: &Response) -> (r: Result<(), Error>)
    ensures
        ({
            let (v, f) = C::spec_merge(old(cres)@, res@.payload);
            &&& final(cres)@ == v
            &&& match f {
                None => r is Ok,
                Some(fault) => r matches Err(e) && e@ is Others && (e@
                    == ErrorView::Others(
                    unpack_get_text("failed to decode Protobuf message: "@ + fault_description(fault)),
                )),
            }
        }),
{
    match cres.merge(res.payload.as_slice()) {
        Ok(()) => Ok(()),
        Err(e) => {
            let t = e.message();
            Err(Error::Others(crate::text::join2("Unpack get error ", t.as_str())))
        },
    }
}

} // verus!
