//! The decisions of blocking frame I/O: how far a read or write has come,
//! how an oversized body is discarded, and when a short transfer is an error.

use crate::error::{sock_error_msg, Error, ErrorView};
use crate::messages::{status_view, Code};
use crate::proto::{header_from_bytes, MessageHeader, DEFAULT_PAGE_SIZE, MESSAGE_HEADER_LENGTH};
use crate::text::{decimal, u32_text, usize_text};
use vstd::prelude::*;
use vstd::string::*;

verus! {

/// The error for a transfer that moved `size` bytes, described by `text`: a
/// disconnected socket when nothing moved, else an `INVALID_ARGUMENT` status.
pub open spec fn short_transfer(size: nat, text: Seq<char>) -> ErrorView {
    if size == 0 {
        ErrorView::Socket("socket disconnected"@)
    } else {
        ErrorView::RpcStatus(status_view(Code::INVALID_ARGUMENT, text))
    }
}

/// After a read of `got` more bytes towards `count`, with `len` read so far:
/// the new total, and whether reading stops (all read, or the peer closed).
pub fn read_progress(len: usize, count: usize, got: usize) -> (r: (usize, bool))
    requires
        len <= count,
        got <= count - len,
    ensures
        r.0 == len + got,
        r.1 == (len + got == count || got == 0),
{
    let total = len + got;
    (total, total == count || got == 0)
}

/// After a write of `wrote` more bytes towards `count`, with `len` written so
/// far: the new total, and whether writing stops (all written).
pub fn write_progress(len: usize, count: usize, wrote: usize) -> (r: (usize, bool))
    requires
        len <= count,
        wrote <= count - len,
    ensures
        r.0 == len + wrote,
        r.1 == (len + wrote == count),
{
    let total = len + wrote;
    (total, total == count)
}

/// How many bytes the next read takes while discarding `need` more bytes of an
/// oversized body: a page, or what is left when that is less.
pub fn discard_chunk(need: usize) -> (n: usize)
    ensures
        n == if need < DEFAULT_PAGE_SIZE { need } else { DEFAULT_PAGE_SIZE },
{
    if need < DEFAULT_PAGE_SIZE {
        need
    } else {
        DEFAULT_PAGE_SIZE
    }
}

/// The text of the error for a header read that returned `size` bytes.
pub open spec fn short_header_text(size: nat) -> Seq<char> {
    "Message header length "@ + decimal(size) + " is too small"@
}

/// The header in the bytes a header read returned; fewer than ten bytes is an
/// error.
pub fn header_from_read(buf: &[u8]) -> (r: Result<MessageHeader, Error>)
    ensures
        buf@.len() == MESSAGE_HEADER_LENGTH ==> r == Ok::<MessageHeader, Error>(header_from_bytes(buf@)),
        buf@.len() != MESSAGE_HEADER_LENGTH ==> (r matches Err(e) && e@ == short_transfer(
            buf@.len(),
            short_header_text(buf@.len()),
        )),
{
    let size = buf.len();
    if size != MESSAGE_HEADER_LENGTH {
        let mut msg = String::from_str("Message header length ");
        let d = usize_text(size);
        msg.append(d.as_str());
        msg.append(" is too small");
        return Err(sock_error_msg(size, msg));
    }
    Ok(MessageHeader::from_bytes(buf))
}

/// The text of the error for a body read that returned `size` of `length` bytes.
pub open spec fn short_body_text(size: nat, length: u32) -> Seq<char> {
    "Message length "@ + decimal(size) + " is not "@ + decimal(length as nat)
}

/// The body in the bytes a body read returned; fewer than the header's length is
/// an error.
pub fn body_from_read(buf: Vec<u8>, length: u32) -> (r: Result<Vec<u8>, Error>)
    ensures
        buf@.len() == length ==> (r matches Ok(b) && b@ == buf@),
        buf@.len() != length ==> (r matches Err(e) && e@ == short_transfer(
            buf@.len(),
            short_body_text(buf@.len(), length),
        )),
{
    let size = buf.len();
    if size != length as usize {
        let mut msg = String::from_str("Message length ");
        let d = usize_text(size);
        msg.append(d.as_str());
        msg.append(" is not ");
        let l = u32_text(length);
        msg.append(l.as_str());
        return Err(sock_error_msg(size, msg));
    }
    Ok(buf)
}

/// The text of the error for a header write that sent `size` bytes.
pub open spec fn short_header_write_text(size: nat) -> Seq<char> {
    "Send Message header length size "@ + decimal(size) + " is not right"@
}

/// Whether a header write that sent `size` bytes succeeded.
pub fn header_written(size: usize) -> (r: Result<(), Error>)
    ensures
        r is Ok <==> size == MESSAGE_HEADER_LENGTH,
        r matches Err(e) ==> e@ == short_transfer(size as nat, short_header_write_text(size as nat)),
{
    if size != MESSAGE_HEADER_LENGTH {
        let mut msg = String::from_str("Send Message header length size ");
        let d = usize_text(size);
        msg.append(d.as_str());
        msg.append(" is not right");
        return Err(sock_error_msg(size, msg));
    }
    Ok(())
}

/// The text of the error for a body write that sent `size` bytes.
pub open spec fn short_body_write_text(size: nat) -> Seq<char> {
    "Send Message length size "@ + decimal(size) + " is not right"@
}

/// Whether a body write that sent `size` of `expected` bytes succeeded.
pub fn body_written(size: usize, expected: usize) -> (r: Result<(), Error>)
    ensures
        r is Ok <==> size == expected,
        r matches Err(e) ==> e@ == short_transfer(size as nat, short_body_write_text(size as nat)),
{
    if size != expected {
        let mut msg = String::from_str("Send Message length size ");
        let d = usize_text(size);
        msg.append(d.as_str());
        msg.append(" is not right");
        return Err(sock_error_msg(size, msg));
    }
    Ok(())
}

} // verus!
