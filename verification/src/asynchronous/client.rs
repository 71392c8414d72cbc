//! The decisions of the asynchronous client: framing requests, the flags that
//! open a stream, routing read frames to waiting calls, and the registration
//! of a call until its answer arrives.

use crate::codec::request_bytes;
use crate::error::{get_rpc_status, Error, ErrorView};
use crate::messages::{status_view, Code, Request};
use crate::proto::{
    check_oversize, oversize_error, Codec, GenMessage, Message, MessageHeader, FLAG_NO_DATA,
    FLAG_REMOTE_CLOSED, FLAG_REMOTE_OPEN, MESSAGE_LENGTH_MAX, MESSAGE_TYPE_DATA, MESSAGE_TYPE_REQUEST,
    MESSAGE_TYPE_RESPONSE,
};
use crate::text::{decimal, u32_text};
use vstd::prelude::*;
use vstd::string::*;

verus! {

/// The `Debug` rendering of a header.
pub open spec fn header_debug(h: MessageHeader) -> Seq<char> {
    "MessageHeader { length: "@ + decimal(h.length as nat) + ", stream_id: "@ + decimal(h.stream_id as nat)
        + ", type_: "@ + decimal(h.type_ as nat) + ", flags: "@ + decimal(h.flags as nat) + " }"@
}

/// The `Debug` rendering of a header.
pub fn header_debug_text(h: &MessageHeader) -> (t: String)
    ensures
        t@ == header_debug(*h),
{
    let mut t = String::from_str("MessageHeader { length: ");
    let a = u32_text(h.length);
    t.append(a.as_str());
    t.append(", stream_id: ");
    let b = u32_text(h.stream_id);
    t.append(b.as_str());
    t.append(", type_: ");
    let c = u32_text(h.type_ as u32);
    t.append(c.as_str());
    t.append(", flags: ");
    let d = u32_text(h.flags as u32);
    t.append(d.as_str());
    t.append(" }");
    t
}

/// Where a frame read by the client goes.
pub enum Route {
    /// To the call waiting on its stream; `remove` ends the call's registration.
    Deliver { remove: bool },
    /// Nowhere: the call waiting on its stream fails with this error.
    Fail(Error),
}

/// Routes a read frame: a response, or a data frame that closes the peer's
/// half, goes to its call and ends the registration; another data frame goes
/// to its call; anything else fails the call as malformed.
pub fn response_route(header: &MessageHeader) -> (r: Route)
    ensures
        header.type_ == MESSAGE_TYPE_RESPONSE ==> (r matches Route::Deliver { remove } && remove),
        header.type_ == MESSAGE_TYPE_DATA ==> (r matches Route::Deliver { remove } && remove == (header.flags
            & FLAG_REMOTE_CLOSED == FLAG_REMOTE_CLOSED)),
        header.type_ != MESSAGE_TYPE_RESPONSE && header.type_ != MESSAGE_TYPE_DATA ==> (r matches Route::Fail(e)
            && e@ == ErrorView::Others("Receiver got malformed packet "@ + header_debug(*header))),
{
    if header.type_ == MESSAGE_TYPE_RESPONSE {
        Route::Deliver { remove: true }
    } else if header.type_ == MESSAGE_TYPE_DATA {
        Route::Deliver { remove: header.flags & FLAG_REMOTE_CLOSED == FLAG_REMOTE_CLOSED }
    } else {
        let d = header_debug_text(header);
        Route::Fail(Error::Others(crate::text::join2("Receiver got malformed packet ", d.as_str())))
    }
}

/// The text of the error for a client stream opened with a payload.
pub open spec fn stream_payload_text() -> Seq<char> {
    "Creating a ClientStream and sending payload at the same time is not allowed"@
}

/// The flags added to the request that opens a stream: a client-streaming call
/// opens the client's half and sends no data, and may not carry a payload; any
/// other call closes the client's half at once.
pub fn stream_init_flags(streaming_client: bool, payload_empty: bool) -> (r: Result<u8, Error>)
    ensures
        streaming_client && !payload_empty ==> (r matches Err(e) && e@ == ErrorView::RpcStatus(
            status_view(Code::INVALID_ARGUMENT, stream_payload_text()),
        )),
        streaming_client && payload_empty ==> r == Ok::<u8, Error>(FLAG_REMOTE_OPEN | FLAG_NO_DATA),
        !streaming_client ==> r == Ok::<u8, Error>(FLAG_REMOTE_CLOSED),
{
    if streaming_client {
        if !payload_empty {
            return Err(get_rpc_status(
                Code::INVALID_ARGUMENT,
                String::from_str("Creating a ClientStream and sending payload at the same time is not allowed"),
            ));
        }
        Ok(FLAG_REMOTE_OPEN | FLAG_NO_DATA)
    } else {
        Ok(FLAG_REMOTE_CLOSED)
    }
}

/// Frames a request for `stream_id`; an encoding over [`MESSAGE_LENGTH_MAX`] is
/// refused, first by its size truncated to 32 bits as the header would hold it,
/// then by its whole length.
pub fn request_frame(stream_id: u32, req: Request) -> (r: Result<GenMessage, Error>)
    ensures
        ({
            let len = request_bytes(req@).len();
            &&& r is Ok <==> len <= MESSAGE_LENGTH_MAX
            &&& r matches Ok(m) ==> m.header == (MessageHeader {
                length: len as u32,
                stream_id,
                type_: MESSAGE_TYPE_REQUEST,
                flags: 0,
            }) && m@.payload == request_bytes(req@)
            &&& r matches Err(e) ==> e@ == oversize_error(
                if len as u32 > MESSAGE_LENGTH_MAX { (len as u32) as nat } else { len },
                false,
            )
        }),
{
    let ghost len = request_bytes(req@).len();
    let msg = Message::new_request(stream_id, req)?;
    let gen = match msg.into_gen() {
        Ok(g) => g,
        Err(e) => {
            return Err(Error::Others(e.message()));
        },
    };
    check_oversize(gen.payload.len(), false)?;
    Ok(gen)
}

/// The registration of a call while it waits for its answer; a registration
/// still armed when the call gives up must be removed from the table of
/// waiting calls.
pub struct StreamRegistrationGuard {
    /// The stream of the call.
    pub stream_id: u32,
    /// Whether the registration is still to be removed.
    pub active: bool,
}

impl StreamRegistrationGuard {
    /// An armed registration for `stream_id`.
    pub fn new(stream_id: u32) -> (g: Self)
        ensures
            g.stream_id == stream_id,
            g.active,
    {
        StreamRegistrationGuard { stream_id, active: true }
    }

    /// Keeps the registration: the call has its answer, or has handed the
    /// registration on.
    pub fn disarm(&mut self)
        ensures
            final(self).stream_id == old(self).stream_id,
            !final(self).active,
    {
        self.active = false;
    }

    /// The stream whose registration must be removed when the guard goes away.
    pub fn pending_removal(&self) -> (r: Option<u32>)
        ensures
            self.active ==> r == Some(self.stream_id),
            !self.active ==> r is None,
    {
        if self.active {
            Some(self.stream_id)
        } else {
            None
        }
    }
}

} // verus!
