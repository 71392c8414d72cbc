//! The decisions of the asynchronous server: which frames it accepts, how a
//! request finds its handler, what a handler's result or timeout answers, and
//! how an answer is framed within the size limits.

use crate::codec::{request_default, request_merge, response_bytes};
use crate::error::{get_status, is_error_text, Error};
use crate::messages::{code_number, status_view, Code, Request, Response, ResponseView, Status};
use crate::proto::{
    check_oversize, oversize_text, Codec, GenMessage, Message, MessageHeader, FLAG_NO_DATA,
    MESSAGE_LENGTH_MAX, MESSAGE_TYPE_DATA, MESSAGE_TYPE_REQUEST, MESSAGE_TYPE_RESPONSE,
};
use crate::sync::utils::{bounded_response, bounded_response_bytes};
use crate::wire::fault_description;
use vstd::prelude::*;
use vstd::string::*;

verus! {

/// What the server does with a frame that passed its inbound pipeline.
pub enum FrameAction {
    /// Answer the frame's stream with this status and go no further.
    Refuse(Status),
    /// Handle the frame as a request.
    Request,
    /// Route the frame to the stream it belongs to.
    Data,
    /// Ignore the frame.
    Ignore,
}

/// Classifies a frame: a stream id that is not odd is refused; requests and
/// data frames are handled; other frames are ignored.
pub fn classify_frame(header: &MessageHeader) -> (a: FrameAction)
    ensures
        header.stream_id % 2 != 1 ==> (a matches FrameAction::Refuse(s) && s@ == status_view(
            Code::INVALID_ARGUMENT,
            "stream id must be odd"@,
        )),
        header.stream_id % 2 == 1 && header.type_ == MESSAGE_TYPE_REQUEST ==> a is Request,
        header.stream_id % 2 == 1 && header.type_ == MESSAGE_TYPE_DATA ==> a is Data,
        header.stream_id % 2 == 1 && header.type_ != MESSAGE_TYPE_REQUEST && header.type_
            != MESSAGE_TYPE_DATA ==> a is Ignore,
{
    if header.stream_id % 2 != 1 {
        return FrameAction::Refuse(get_status(Code::INVALID_ARGUMENT, String::from_str("stream id must be odd")));
    }
    if header.type_ == MESSAGE_TYPE_REQUEST {
        FrameAction::Request
    } else if header.type_ == MESSAGE_TYPE_DATA {
        FrameAction::Data
    } else {
        FrameAction::Ignore
    }
}

/// Decodes the request a frame carries; an undecodable request is answered
/// with an `INVALID_ARGUMENT` status.
pub fn decode_request_frame(msg: GenMessage) -> (r: Result<Message<Request>, Status>)
    ensures
        ({
            let (v, f, q) = request_merge(msg@.payload, 0, msg@.payload.len(), request_default());
            match f {
                None => r matches Ok(m) && m.header == msg.header && m.payload@ == v,
                Some(fault) => r matches Err(s) && s@.code == code_number(Code::INVALID_ARGUMENT) && s@.details.len()
                    == 0 && (s@ == status_view(
                    Code::INVALID_ARGUMENT,
                    "failed to decode Protobuf message: "@ + fault_description(fault),
                )),
            }
        }),
{
    match Message::<Request>::from_gen(msg) {
        Ok(m) => Ok(m),
        Err(e) => Err(get_status(Code::INVALID_ARGUMENT, e.message())),
    }
}

/// The status for a request to a service that is not registered.
pub fn missing_service(service: &str) -> (s: Status)
    ensures
        s@ == status_view(Code::INVALID_ARGUMENT, service@ + " service does not exist"@),
{
    let mut t = String::from_str(service);
    t.append(" service does not exist");
    get_status(Code::INVALID_ARGUMENT, t)
}

/// The status for a request to a method the service does not have.
pub fn missing_method_status(method: &str) -> (s: Status)
    ensures
        s@ == status_view(Code::UNIMPLEMENTED, method@ + " method"@),
{
    let mut t = String::from_str(method);
    t.append(" method");
    get_status(Code::UNIMPLEMENTED, t)
}

/// What a unary method's run answers: `None` when its timeout passed first,
/// which is `DEADLINE_EXCEEDED`; a handler error as `UNKNOWN` with the error's
/// text; else the handler's response.
pub fn method_outcome(result: Option<Result<Response, Error>>) -> (r: Result<Option<Response>, Status>)
    ensures
        match result {
            None => r matches Err(s) && s@ == status_view(Code::DEADLINE_EXCEEDED, "timeout"@),
            Some(Err(e)) => r matches Err(s) && s@.code == code_number(Code::UNKNOWN) && s@.details.len() == 0
                && is_error_text(e@, s@.message),
            Some(Ok(res)) => r matches Ok(Some(x)) && x@ == res@,
        },
{
    match result {
        None => Err(get_status(Code::DEADLINE_EXCEEDED, String::from_str("timeout"))),
        Some(Err(e)) => Err(get_status(Code::UNKNOWN, e.message())),
        Some(Ok(res)) => Ok(Some(res)),
    }
}

/// What a streaming method's run answers: a handler error as `UNKNOWN` with
/// the error's text, else the handler's optional final response.
pub fn stream_outcome(result: Result<Option<Response>, Error>) -> (r: Result<Option<Response>, Status>)
    ensures
        match result {
            Err(e) => r matches Err(s) && s@.code == code_number(Code::UNKNOWN) && s@.details.len() == 0
                && is_error_text(e@, s@.message),
            Ok(None) => r matches Ok(None),
            Ok(Some(res)) => r matches Ok(Some(x)) && x@ == res@,
        },
{
    match result {
        Err(e) => Err(get_status(Code::UNKNOWN, e.message())),
        Ok(x) => Ok(x),
    }
}

/// How long a unary method may run: without limit when the timeout is zero,
/// else the timeout in nanoseconds, read as unsigned.
pub fn method_deadline(timeout_nano: i64) -> (w: Option<u64>)
    ensures
        timeout_nano == 0 ==> w is None,
        timeout_nano != 0 ==> w == Some(timeout_nano as u64),
{
    if timeout_nano == 0 {
        None
    } else {
        Some(timeout_nano as u64)
    }
}

/// A handler's response, or, when its encoding is over [`MESSAGE_LENGTH_MAX`],
/// the response that carries the oversize status instead.
pub fn oversize_checked(resp: Response) -> (r: Response)
    ensures
        response_bytes(resp@).len() <= MESSAGE_LENGTH_MAX ==> r@ == resp@,
        response_bytes(resp@).len() > MESSAGE_LENGTH_MAX ==> r@ == (ResponseView {
            status: Some(status_view(Code::INVALID_ARGUMENT, oversize_text(response_bytes(resp@).len()))),
            payload: Seq::empty(),
        }),
{
    let buf = match resp.encode() {
        Ok(b) => b,
        Err(_) => Vec::new(),
    };
    match check_oversize(buf.len(), true) {
        Ok(()) => resp,
        Err(e) => Response::from_error(e),
    }
}

/// Frames the answer for `stream_id`, encoded within `max_len` raw bytes as
/// [`bounded_response`] does.
pub fn response_message(stream_id: u32, resp: &Response, max_len: usize) -> (m: GenMessage)
    ensures
        m@.payload == bounded_response_bytes(resp@, max_len as nat),
        m.header == (MessageHeader {
            length: bounded_response_bytes(resp@, max_len as nat).len() as u32,
            stream_id,
            type_: MESSAGE_TYPE_RESPONSE,
            flags: 0,
        }),
{
    let payload = bounded_response(resp, max_len);
    GenMessage::new_response(stream_id, payload)
}

/// The status for data on a stream that is no longer registered.
pub fn inactive_stream_status() -> (s: Status)
    ensures
        s@ == status_view(Code::INVALID_ARGUMENT, "Stream is no longer active"@),
{
    get_status(Code::INVALID_ARGUMENT, String::from_str("Stream is no longer active"))
}

/// The data frame a streaming method first receives from the request that
/// opened it: the request's payload, unless the request's flags say it carries
/// no data.
pub fn initial_data(stream_id: u32, flags: u8, payload: Vec<u8>) -> (m: Option<GenMessage>)
    ensures
        flags & FLAG_NO_DATA == FLAG_NO_DATA ==> m is None,
        flags & FLAG_NO_DATA != FLAG_NO_DATA ==> (m matches Some(g) && g.header == (MessageHeader {
            length: payload@.len() as u32,
            stream_id,
            type_: MESSAGE_TYPE_DATA,
            flags: 0,
        }) && g@.payload == payload@),
{
    if flags & FLAG_NO_DATA == FLAG_NO_DATA {
        None
    } else {
        Some(GenMessage::new_data(stream_id, payload))
    }
}

} // verus!
