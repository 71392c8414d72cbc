//! The decisions of the blocking socket layer: which system errors are
//! retried, and what a wake-up of the listener or of the client's reader means.

use vstd::prelude::*;

verus! {

/// The number of an interrupted system call on Linux.
///
/// Returns `libc::EINTR`, defined in libc's source as 4.
#[verifier::external_body]
fn eintr() -> (n: i32)
    ensures
        n == 4,
{
    libc::EINTR
}

/// The number of a call that would block on Linux.
///
/// Returns `libc::EAGAIN`, defined in libc's source as 11.
#[verifier::external_body]
fn eagain() -> (n: i32)
    ensures
        n == 11,
{
    libc::EAGAIN
}

/// Whether a socket read or write that failed with this system error number is
/// retried: an interrupted call or one that would block.
pub fn retryable_code(code: i32) -> (b: bool)
    ensures
        b == (code == 4 || code == 11),
{
    code == eintr() || code == eagain()
}

/// What a wake-up of a poll on a shutdown pipe and a socket means.
#[derive(PartialEq, Eq, Structural)]
pub enum Wakeup {
    /// The poll itself failed; the loop ends with the system error.
    Failed,
    /// Nothing to do; poll again.
    Spurious,
    /// The shutdown pipe fired; the loop ends.
    Closed,
    /// The socket is ready.
    Ready,
}

/// What a listener's poll means: a failed poll ends the listener; a wake-up
/// without a ready socket, or with the shutdown pipe fired, is spurious, and
/// the listener checks its quit flag before polling again.
pub fn listener_wakeup(returned: i32, pipe_events: i16, socket_events: i16) -> (w: Wakeup)
    ensures
        returned == -1 ==> w == Wakeup::Failed,
        returned != -1 && (returned < 1 || pipe_events != 0 || socket_events == 0) ==> w == Wakeup::Spurious,
        returned >= 1 && pipe_events == 0 && socket_events != 0 ==> w == Wakeup::Ready,
{
    if returned == -1 {
        Wakeup::Failed
    } else if returned < 1 {
        Wakeup::Spurious
    } else if pipe_events != 0 || socket_events == 0 {
        Wakeup::Spurious
    } else {
        Wakeup::Ready
    }
}

/// What the client reader's poll means: an interrupted poll or one with nothing
/// ready is spurious; any other failed poll ends the reader; the shutdown pipe
/// closes it; else the socket is ready.
pub fn client_wakeup(returned: i32, errno: i32, pipe_events: i16, socket_events: i16) -> (w: Wakeup)
    ensures
        returned == -1 && errno == 4 ==> w == Wakeup::Spurious,
        returned == -1 && errno != 4 ==> w == Wakeup::Failed,
        returned != -1 && returned < 1 ==> w == Wakeup::Spurious,
        returned >= 1 && pipe_events != 0 ==> w == Wakeup::Closed,
        returned >= 1 && pipe_events == 0 && socket_events == 0 ==> w == Wakeup::Spurious,
        returned >= 1 && pipe_events == 0 && socket_events != 0 ==> w == Wakeup::Ready,
{
    if returned == -1 {
        if errno == eintr() {
            Wakeup::Spurious
        } else {
            Wakeup::Failed
        }
    } else if returned < 1 {
        Wakeup::Spurious
    } else if pipe_events != 0 {
        Wakeup::Closed
    } else if socket_events == 0 {
        Wakeup::Spurious
    } else {
        Wakeup::Ready
    }
}

} // verus!
