//! The decisions of a connection's writer: when a queued frame is dropped
//! before writing, and what a failed write means for the frame and the
//! connection.

use crate::error::{Error, ErrorView};
use crate::proto::{GenMessage, GenMessageError, MessageHeader};
use vstd::prelude::*;
use vstd::string::*;

verus! {

/// Builds the reading and writing halves that drive one connection.
pub trait Builder {
    /// What handles frames read from the connection.
    type Reader;
    /// What supplies frames to write to the connection.
    type Writer;

    /// Builds the two halves.
    fn build(&mut self) -> (Self::Reader, Self::Writer);
}

/// The error for a request whose deadline passed.
pub fn request_timeout_error() -> (e: Error)
    ensures
        e@ == ErrorView::Others("Request deadline elapsed"@),
{
    Error::Others(String::from_str("Request deadline elapsed"))
}

/// Whether a queued frame is dropped before it is written, and the error its
/// sender gets: a cancelled request as locally closed, then an expired one as
/// timed out.
pub fn discard_before_write(cancelled: bool, expired: bool) -> (r: Option<Error>)
    ensures
        cancelled ==> (r matches Some(e) && e@ == ErrorView::LocalClosed),
        !cancelled && expired ==> (r matches Some(e) && e@ == ErrorView::Others("Request deadline elapsed"@)),
        !cancelled && !expired ==> r is None,
{
    if cancelled {
        return Some(Error::LocalClosed);
    }
    if expired {
        return Some(request_timeout_error());
    }
    None
}

/// How the write of one frame ended.
pub enum WriteOutcome {
    /// The write finished, successfully or not.
    Complete(Result<(), Error>),
    /// The frame was dropped before writing, with the error for its sender.
    Discarded(Error),
    /// The request was cancelled while its frame was being written.
    Cancelled,
    /// The request's deadline passed while its frame was being written.
    DeadlineElapsed,
}

/// What the writer does after a write: report a result to the frame's sender
/// and go on, or report an error to the sender and end the connection with
/// another.
pub enum Settlement {
    /// Report this result and keep writing.
    Report(Result<(), Error>),
    /// Report the first error to the sender and end the connection with the second.
    Abort(Error, Error),
}

/// Settles a write: a finished or discarded write is reported and writing
/// goes on; a failed, cancelled or expired write ends the connection, since
/// part of a frame may be on the wire.
pub fn settle_write(outcome: WriteOutcome) -> (s: Settlement)
    ensures
        match outcome {
            WriteOutcome::Complete(Ok(())) => s matches Settlement::Report(Ok(())),
            WriteOutcome::Discarded(e) => s matches Settlement::Report(Err(x)) && x@ == e@,
            WriteOutcome::Complete(Err(e)) => s matches Settlement::Abort(m, c) && m@ == e@ && c@ == e@,
            WriteOutcome::Cancelled => s matches Settlement::Abort(m, c) && m@ == ErrorView::LocalClosed && c@
                == ErrorView::Socket("connection closed after a request was cancelled during write"@),
            WriteOutcome::DeadlineElapsed => s matches Settlement::Abort(m, c) && m@ == ErrorView::Others(
                "Request deadline elapsed"@,
            ) && c@ == ErrorView::Socket(
                "connection closed after a request deadline elapsed during write"@,
            ),
        },
{
    match outcome {
        WriteOutcome::Complete(Ok(())) => Settlement::Report(Ok(())),
        WriteOutcome::Discarded(e) => Settlement::Report(Err(e)),
        WriteOutcome::Complete(Err(e)) => {
            let c = e.clone();
            Settlement::Abort(c, e)
        },
        WriteOutcome::Cancelled => Settlement::Abort(
            Error::LocalClosed,
            Error::Socket(String::from_str("connection closed after a request was cancelled during write")),
        ),
        WriteOutcome::DeadlineElapsed => Settlement::Abort(
            request_timeout_error(),
            Error::Socket(String::from_str("connection closed after a request deadline elapsed during write")),
        ),
    }
}

/// How the writer task of a connection ended.
pub enum WriterEnd {
    /// It returned this result.
    Returned(Result<(), Error>),
    /// It panicked or was cancelled; the text describes the failure.
    Failed(String),
}

/// What the reader loop of a connection does next.
pub enum RunAction {
    /// Hand the frame to the reader's delegate and read on.
    HandleMsg(GenMessage),
    /// Answer the frame's sender with this error and read on.
    HandleErr(MessageHeader, Error),
    /// Tell the delegate the connection is lost with this error, then stop.
    Disconnect(Error),
    /// Stop the writer, tell the delegate the connection is lost with this
    /// error, then stop.
    Abort(Error),
    /// Stop.
    Stop,
    /// Nothing is ready; wait.
    Wait,
}

/// One step of a connection's reader loop, from what is ready: the writer's
/// end first, then shutdown, then a read frame. A writer that ended cleanly
/// or a shutdown stops the loop; a failed writer disconnects; a frame is
/// handled, a returnable read error answered, any other read error aborts.
pub fn run_step(
    writer: Option<WriterEnd>,
    shutdown: bool,
    read: Option<Result<GenMessage, GenMessageError>>,
) -> (a: RunAction)
    ensures
        writer matches Some(WriterEnd::Returned(Ok(()))) ==> a is Stop,
        writer matches Some(WriterEnd::Returned(Err(e))) ==> (a matches RunAction::Disconnect(x) && x@ == e@),
        writer matches Some(WriterEnd::Failed(t)) ==> (a matches RunAction::Disconnect(x) && x@ == ErrorView::Others(
            "Writer task failed: "@ + t@,
        )),
        writer is None && shutdown ==> a is Stop,
        writer is None && !shutdown ==> match read {
            None => a is Wait,
            Some(Ok(m)) => a == RunAction::HandleMsg(m),
            Some(Err(GenMessageError::ReturnError(h, e))) => (a matches RunAction::HandleErr(h2, x) && h2 == h
                && x@ == e@),
            Some(Err(GenMessageError::InternalError(e))) => (a matches RunAction::Abort(x) && x@ == e@),
        },
{
    match writer {
        Some(WriterEnd::Returned(Ok(()))) => return RunAction::Stop,
        Some(WriterEnd::Returned(Err(e))) => return RunAction::Disconnect(e),
        Some(WriterEnd::Failed(t)) => {
            return RunAction::Disconnect(Error::Others(crate::text::join2("Writer task failed: ", t.as_str())));
        },
        None => {},
    }
    if shutdown {
        return RunAction::Stop;
    }
    match read {
        None => RunAction::Wait,
        Some(Ok(m)) => RunAction::HandleMsg(m),
        Some(Err(GenMessageError::ReturnError(h, e))) => RunAction::HandleErr(h, e),
        Some(Err(GenMessageError::InternalError(e))) => RunAction::Abort(e),
    }
}

} // verus!
