//! What a stream receiver returns for each frame routed to it.

use crate::codec::{response_default, response_merge};
use crate::error::{Error, ErrorView};
use crate::messages::{code_of_number, Code, Response};
use crate::proto::{
    check_oversize, oversize_error, Codec, GenMessage, FLAG_NO_DATA, FLAG_REMOTE_CLOSED,
    MESSAGE_LENGTH_MAX, MESSAGE_TYPE_DATA, MESSAGE_TYPE_RESPONSE,
};
use crate::text::{decimal, u32_text};
use crate::wire::fault_description;
use vstd::prelude::*;
use vstd::string::*;

verus! {

/// Which end of a stream a sender or receiver belongs to.
#[derive(Clone, Copy, Debug, PartialEq, Eq, Structural)]
pub enum Kind {
    Client,
    Server,
}

/// The state a stream receiver keeps between frames.
pub struct ReceiverState {
    /// The stream this receiver reads.
    pub stream_id: u32,
    /// Whether the peer may send data frames on this stream.
    pub recveivable: bool,
    /// Whether the peer has closed its half of the stream.
    pub remote_closed: bool,
    /// Which end of the stream this receiver belongs to.
    pub kind: Kind,
}

/// The text of the error for a close frame that carries data.
pub open spec fn close_with_data_text(stream_id: u32) -> Seq<char> {
    "stream "@ + decimal(stream_id as nat) + ": close message cannot include data"@
}

/// The text of the error for a response that could not be decoded.
pub open spec fn decode_failed_text(detail: Seq<char>) -> Seq<char> {
    "Decode message failed."@ + detail
}

/// What a receiver in state (`recveivable`, `stream_id`) does with a frame of
/// this type, flags and payload length: whether the peer's half is closed
/// afterwards, and whether the frame ends the stream with an error that does
/// not depend on decoding (`Some`), or passes its payload on (`None`).
pub open spec fn data_outcome(
    recveivable: bool,
    stream_id: u32,
    flags: u8,
    len: nat,
) -> (bool, Option<ErrorView>) {
    if !recveivable {
        (true, Some(ErrorView::Others("received data from non-streaming server."@)))
    } else if flags & FLAG_REMOTE_CLOSED == FLAG_REMOTE_CLOSED {
        if flags & FLAG_NO_DATA == FLAG_NO_DATA {
            if len > 0 {
                (true, Some(ErrorView::Others(close_with_data_text(stream_id))))
            } else {
                (true, Some(ErrorView::Eof))
            }
        } else if len > MESSAGE_LENGTH_MAX {
            (true, Some(oversize_error(len, false)))
        } else {
            (true, None)
        }
    } else if len > MESSAGE_LENGTH_MAX {
        (false, Some(oversize_error(len, false)))
    } else {
        (false, None)
    }
}

impl ReceiverState {
    /// Checks, before waiting for a frame, that the peer has not closed its half.
    pub fn before_recv(&self) -> (r: Result<(), Error>)
        ensures
            r is Ok <==> !self.remote_closed,
            r matches Err(e) ==> e@ == ErrorView::RemoteClosed,
    {
        if self.remote_closed {
            Err(Error::RemoteClosed)
        } else {
            Ok(())
        }
    }

    /// Handles a frame routed to this receiver: a response closes the stream
    /// and yields its payload, or its status when that is not `OK`; a data
    /// frame yields its payload, or ends the stream as [`data_outcome`] says;
    /// any other frame is refused.
    pub fn on_message(&mut self, msg: GenMessage) -> (r: Result<Vec<u8>, Error>)
        ensures
            final(self).stream_id == old(self).stream_id,
            final(self).recveivable == old(self).recveivable,
            final(self).kind == old(self).kind,
            msg.header.type_ == MESSAGE_TYPE_RESPONSE ==> final(self).remote_closed && ({
                let (v, f, q) = response_merge(msg@.payload, 0, msg@.payload.len(), response_default());
                match f {
                    Some(fault) => r matches Err(e) && e@ is Others && (e@
                        == ErrorView::Others(
                        decode_failed_text("failed to decode Protobuf message: "@ + fault_description(fault)),
                    )),
                    None => match v.status {
                        Some(st) => if code_of_number(st.code) != Code::OK {
                            r matches Err(e) && e@ == ErrorView::RpcStatus(st)
                        } else {
                            r matches Ok(p) && p@ == v.payload
                        },
                        None => r matches Ok(p) && p@ == v.payload,
                    },
                }
            }),
            msg.header.type_ == MESSAGE_TYPE_DATA ==> ({
                let (closed, err) = data_outcome(
                    old(self).recveivable,
                    old(self).stream_id,
                    msg.header.flags,
                    msg@.payload.len(),
                );
                &&& final(self).remote_closed == (old(self).remote_closed || closed)
                &&& match err {
                    Some(e) => r matches Err(x) && x@ == e,
                    None => r matches Ok(p) && p@ == msg@.payload,
                }
            }),
            msg.header.type_ != MESSAGE_TYPE_RESPONSE && msg.header.type_ != MESSAGE_TYPE_DATA ==> (final(self).remote_closed
                == old(self).remote_closed && (r matches Err(e) && e@ == ErrorView::Others("not support"@))),
    {
        if msg.header.type_ == MESSAGE_TYPE_RESPONSE {
            self.remote_closed = true;
            let resp = match Response::decode(msg.payload.as_slice()) {
                Ok(r) => r,
                Err(e) => {
                    let t = e.message();
                    return Err(Error::Others(crate::text::join2("Decode message failed.", t.as_str())));
                },
            };
            match resp.status {
                Some(status) => {
                    if status.code() != Code::OK {
                        return Err(Error::RpcStatus(status));
                    }
                },
                None => {},
            }
            Ok(resp.payload)
        } else if msg.header.type_ == MESSAGE_TYPE_DATA {
            if !self.recveivable {
                self.remote_closed = true;
                return Err(Error::Others(String::from_str("received data from non-streaming server.")));
            }
            if msg.header.flags & FLAG_REMOTE_CLOSED == FLAG_REMOTE_CLOSED {
                self.remote_closed = true;
                if msg.header.flags & FLAG_NO_DATA == FLAG_NO_DATA {
                    if msg.payload.len() > 0 {
                        let mut t = String::from_str("stream ");
                        let d = u32_text(self.stream_id);
                        t.append(d.as_str());
                        t.append(": close message cannot include data");
                        return Err(Error::Others(t));
                    }
                    return Err(Error::Eof);
                }
            }
            match check_oversize(msg.payload.len(), false) {
                Ok(()) => Ok(msg.payload),
                Err(e) => Err(e),
            }
        } else {
            Err(Error::Others(String::from_str("not support")))
        }
    }
}

/// The frame a receiver gets from its channel, or the error when the channel
/// has closed.
pub fn channel_result(r: Option<Result<GenMessage, Error>>) -> (m: Result<GenMessage, Error>)
    ensures
        match r {
            Some(x) => m == x,
            None => m matches Err(e) && e@ == ErrorView::Others("Receive packet from Receiver error"@),
        },
{
    match r {
        Some(x) => x,
        None => Err(Error::Others(String::from_str("Receive packet from Receiver error"))),
    }
}

} // verus!
