//! Per-connection extension points: an optional payload transform applied at
//! the wire boundary, opaque connection data, and the size limits that hold
//! around the transform.

use crate::error::{Error, ErrorView};
use crate::proto::{
    be_u32_bytes, check_oversize, lemma_be_u32_weights, oversize_error, GenMessage, GenMessageView, MessageHeader,
    MESSAGE_LENGTH_MAX,
};
use crate::text::{decimal, i32_text, signed_decimal, usize_text};
use std::sync::Arc;
use vstd::prelude::*;
use vstd::string::*;

verus! {

/// Typed access to the values of a type-erased connection data store.
pub trait ConnectionDataExt {
    /// The value stored at `key` when there is one and it has type `T`.
    fn get_typed<T: 'static>(&self, key: &str) -> Option<&T>;
}

/// Optional bidirectional payload transform, attached to a connection.
///
/// Applied at the wire boundary for all message types: `transform_inbound`
/// after reading and before dispatch, `transform_outbound` before writing.
/// `aad` is the authenticated routing data of the frame's header
/// (`stream_id || type_ || flags`).
pub trait PayloadTransform: Send + Sync {
    /// Decrypts or decodes a payload.
    fn transform_inbound(&self, data: Vec<u8>, aad: &[u8]) -> Result<Vec<u8>, String>;

    /// Encrypts or encodes a payload.
    fn transform_outbound(&self, data: Vec<u8>, aad: &[u8]) -> Result<Vec<u8>, String>;

    /// The largest number of bytes that `transform_outbound` may add to a payload.
    fn max_overhead(&self) -> (n: usize)
        default_ensures
            n == 64,
    {
        64
    }
}

/// The authenticated routing bytes of a header: the big-endian stream id,
/// then type and flags. The length is left out because a transform changes it.
pub open spec fn aad_bytes(h: MessageHeader) -> Seq<u8> {
    be_u32_bytes(h.stream_id) + seq![h.type_, h.flags]
}

/// The four big-endian bytes of `n`.
fn u32_to_be_bytes(n: u32) -> (b: [u8; 4])
    ensures
        b@ == be_u32_bytes(n),
{
    let b = [(n >> 24u32) as u8, ((n >> 16u32) & 0xffu32) as u8, ((n >> 8u32) & 0xffu32) as u8, (n & 0xffu32) as u8];
    assert(b@ =~= be_u32_bytes(n));
    b
}

/// Serializes the authenticated portion of a header:
/// `stream_id (4 bytes, big-endian) || type_ || flags`.
pub fn serialize_aad(header: &MessageHeader) -> (buf: [u8; 6])
    ensures
        buf@ == aad_bytes(*header),
{
    let sid = u32_to_be_bytes(header.stream_id);
    let buf = [sid[0], sid[1], sid[2], sid[3], header.type_, header.flags];
    assert(buf@ =~= aad_bytes(*header));
    buf
}

/// The authenticated bytes of a header are six: its stream id, most
/// significant byte first, then its type, then its flags.
pub proof fn lemma_aad_layout(h: MessageHeader)
    ensures
        aad_bytes(h).len() == 6,
        aad_bytes(h)[0] * 0x1000000 + aad_bytes(h)[1] * 0x10000 + aad_bytes(h)[2] * 0x100 + aad_bytes(h)[3]
            == h.stream_id,
        aad_bytes(h)[4] == h.type_,
        aad_bytes(h)[5] == h.flags,
{
    lemma_be_u32_weights(h.stream_id);
    let a = aad_bytes(h);
    assert(a[0] == be_u32_bytes(h.stream_id)[0] && a[1] == be_u32_bytes(h.stream_id)[1]
        && a[2] == be_u32_bytes(h.stream_id)[2] && a[3] == be_u32_bytes(h.stream_id)[3]);
}

/// The authenticated bytes of a header do not depend on its length field.
pub proof fn lemma_aad_ignores_length(h: MessageHeader, length: u32)
    ensures
        aad_bytes(MessageHeader { length, ..h }) == aad_bytes(h),
{
}

/// Two headers with equal authenticated bytes agree on stream id, type and
/// flags: the authenticated bytes pin down the routing.
pub proof fn lemma_aad_determines_routing(h1: MessageHeader, h2: MessageHeader)
    requires
        aad_bytes(h1) == aad_bytes(h2),
    ensures
        h1.stream_id == h2.stream_id,
        h1.type_ == h2.type_,
        h1.flags == h2.flags,
{
    let a1 = aad_bytes(h1);
    let a2 = aad_bytes(h2);
    assert(a1[0] == a2[0] && a1[1] == a2[1] && a1[2] == a2[2] && a1[3] == a2[3]);
    assert(a1[4] == a2[4] && a1[5] == a2[5]);
    let s1 = h1.stream_id;
    let s2 = h2.stream_id;
    assert(((s1 >> 24u32) as u8 == (s2 >> 24u32) as u8 && ((s1 >> 16u32) & 0xffu32) as u8 == ((s2
        >> 16u32) & 0xffu32) as u8 && ((s1 >> 8u32) & 0xffu32) as u8 == ((s2 >> 8u32) & 0xffu32) as u8
        && (s1 & 0xffu32) as u8 == (s2 & 0xffu32) as u8) ==> s1 == s2) by (bit_vector);
}

/// The result of a transform, seen as sequences.
pub open spec fn transform_view(t: Result<Vec<u8>, String>) -> Result<Seq<u8>, Seq<char>> {
    match t {
        Ok(v) => Ok(v@),
        Err(e) => Err(e@),
    }
}

/// A buffer result, seen as sequences.
pub open spec fn buf_result_view(r: Result<Vec<u8>, Error>) -> Result<Seq<u8>, ErrorView> {
    match r {
        Ok(v) => Ok(v@),
        Err(e) => Err(e@),
    }
}

/// A unit result, seen through the error's view.
pub open spec fn unit_result_view(r: Result<(), Error>) -> Result<(), ErrorView> {
    match r {
        Ok(()) => Ok(()),
        Err(e) => Err(e@),
    }
}

/// The size check alone: the buffer when it fits, else the oversize error.
pub open spec fn size_checked(v: Seq<u8>, rpc: bool) -> Result<Seq<u8>, ErrorView> {
    if v.len() <= MESSAGE_LENGTH_MAX {
        Ok(v)
    } else {
        Err(oversize_error(v.len(), rpc))
    }
}

/// What a buffer pipeline answers for transform result `t` in direction `dir`
/// (`"transform_inbound"` or `"transform_outbound"`): a failed transform becomes
/// an [`Error::Others`] naming the direction; a transformed buffer is then
/// size-checked.
pub open spec fn buf_outcome(t: Result<Seq<u8>, Seq<char>>, dir: Seq<char>, rpc: bool) -> Result<
    Seq<u8>,
    ErrorView,
> {
    match t {
        Err(e) => Err(ErrorView::Others(dir + " failed: "@ + e)),
        Ok(v) => size_checked(v, rpc),
    }
}

/// The raw payload limit that leaves room for `overhead` bytes of transform output.
pub open spec fn raw_limit(overhead: nat) -> nat {
    if overhead <= MESSAGE_LENGTH_MAX {
        (MESSAGE_LENGTH_MAX - overhead) as nat
    } else {
        0
    }
}

/// Whether `n` is an overhead that transform `t` declares: a value its
/// [`PayloadTransform::max_overhead`] returns.
pub open spec fn declares_overhead<T: PayloadTransform + ?Sized>(t: &T, n: usize) -> bool {
    call_ensures(T::max_overhead, (t,), n)
}

/// Whether `r` is an answer that transform `t` gives, through
/// [`PayloadTransform::transform_outbound`], when asked to encode `data` under
/// the authenticated bytes `aad`.
pub open spec fn outbound_answer<T: PayloadTransform + ?Sized>(
    t: &T,
    data: Seq<u8>,
    aad: Seq<u8>,
    r: Result<Seq<u8>, Seq<char>>,
) -> bool {
    exists|d: Vec<u8>, a: &[u8], x: Result<Vec<u8>, String>|
        #[trigger] call_ensures(T::transform_outbound, (t, d, a), x) && d@ == data && a@ == aad
            && transform_view(x) == r
}

/// Whether `r` is an answer that transform `t` gives, through
/// [`PayloadTransform::transform_inbound`], when asked to decode `data` under
/// the authenticated bytes `aad`.
pub open spec fn inbound_answer<T: PayloadTransform + ?Sized>(
    t: &T,
    data: Seq<u8>,
    aad: Seq<u8>,
    r: Result<Seq<u8>, Seq<char>>,
) -> bool {
    exists|d: Vec<u8>, a: &[u8], x: Result<Vec<u8>, String>|
        #[trigger] call_ensures(T::transform_inbound, (t, d, a), x) && d@ == data && a@ == aad
            && transform_view(x) == r
}

/// Text of the error for a raw payload of `len` bytes over the limit `max`
/// of a buffer pipeline.
pub open spec fn buf_limit_text(len: nat, max: nat) -> Seq<char> {
    "payload "@ + decimal(len) + " bytes exceeds safe limit "@ + decimal(max)
        + " bytes (MESSAGE_LENGTH_MAX - transform overhead)"@
}

/// Text of the error for a raw payload of `len` bytes over the limit `max`
/// of a frame pipeline.
pub open spec fn msg_limit_text(len: nat, max: nat) -> Seq<char> {
    buf_limit_text(len, max) + "; reduce payload size"@
}

/// The outbound buffer pipeline for raw limit `max` and transform result `t`:
/// an over-limit buffer is refused before any transform, else as [`buf_outcome`].
pub open spec fn outbound_buf_outcome(
    len: nat,
    max: nat,
    t: Result<Seq<u8>, Seq<char>>,
    rpc: bool,
) -> Result<Seq<u8>, ErrorView> {
    if len > max {
        Err(ErrorView::Others(buf_limit_text(len, max)))
    } else {
        buf_outcome(t, "transform_outbound"@, rpc)
    }
}

/// What a frame pipeline leaves in the frame and answers, for transform result
/// `t` in direction `dir`: a failed transform leaves the payload empty; a
/// transformed payload replaces the old one and its length (truncated to 32
/// bits) becomes the header's; the new payload is then size-checked.
pub open spec fn msg_outcome(
    m: GenMessageView,
    t: Result<Seq<u8>, Seq<char>>,
    dir: Seq<char>,
    rpc: bool,
) -> (GenMessageView, Result<(), ErrorView>) {
    match t {
        Err(e) => (
            GenMessageView { header: m.header, payload: Seq::empty() },
            Err(ErrorView::Others(dir + " failed: "@ + e)),
        ),
        Ok(v) => (
            GenMessageView { header: MessageHeader { length: v.len() as u32, ..m.header }, payload: v },
            if v.len() <= MESSAGE_LENGTH_MAX {
                Ok(())
            } else {
                Err(oversize_error(v.len(), rpc))
            },
        ),
    }
}

/// The outbound frame pipeline for raw limit `max`: an over-limit payload is
/// refused with the frame untouched, else as [`msg_outcome`].
pub open spec fn outbound_msg_outcome(
    m: GenMessageView,
    max: nat,
    t: Result<Seq<u8>, Seq<char>>,
    rpc: bool,
) -> (GenMessageView, Result<(), ErrorView>) {
    if m.payload.len() > max {
        (m, Err(ErrorView::Others(msg_limit_text(m.payload.len(), max))))
    } else {
        msg_outcome(m, t, "transform_outbound"@, rpc)
    }
}

/// The size-check-only result for a frame.
pub open spec fn msg_size_result(m: GenMessageView, rpc: bool) -> Result<(), ErrorView> {
    if m.payload.len() <= MESSAGE_LENGTH_MAX {
        Ok(())
    } else {
        Err(oversize_error(m.payload.len(), rpc))
    }
}

/// The raw payload limit for a transform with the given overhead:
/// [`MESSAGE_LENGTH_MAX`] minus the overhead, or zero.
pub fn raw_payload_limit(overhead: usize) -> (n: usize)
    ensures
        n == raw_limit(overhead as nat),
{
    MESSAGE_LENGTH_MAX.saturating_sub(overhead)
}

/// Finishes a buffer pipeline on the transform's result `t`.
pub fn finish_buf(t: Result<Vec<u8>, String>, dir: &str, rpc_error: bool) -> (r: Result<Vec<u8>, Error>)
    ensures
        buf_result_view(r) == buf_outcome(transform_view(t), dir@, rpc_error),
{
    match t {
        Err(e) => {
            let msg = crate::text::join3(dir, " failed: ", e.as_str());
            Err(Error::Others(msg))
        }
        Ok(v) => {
            match check_oversize(v.len(), rpc_error) {
                Ok(()) => Ok(v),
                Err(e) => Err(e),
            }
        }
    }
}

/// The error for a raw payload of `len` bytes over the limit `max`.
fn buf_limit_error(len: usize, max: usize) -> (e: Error)
    ensures
        e@ == ErrorView::Others(buf_limit_text(len as nat, max as nat)),
{
    let mut msg = String::from_str("payload ");
    let a = usize_text(len);
    msg.append(a.as_str());
    msg.append(" bytes exceeds safe limit ");
    let b = usize_text(max);
    msg.append(b.as_str());
    msg.append(" bytes (MESSAGE_LENGTH_MAX - transform overhead)");
    Error::Others(msg)
}

/// The error for a frame payload of `len` bytes over the limit `max`.
fn msg_limit_error(len: usize, max: usize) -> (e: Error)
    ensures
        e@ == ErrorView::Others(msg_limit_text(len as nat, max as nat)),
{
    let mut msg = String::from_str("payload ");
    let a = usize_text(len);
    msg.append(a.as_str());
    msg.append(" bytes exceeds safe limit ");
    let b = usize_text(max);
    msg.append(b.as_str());
    msg.append(" bytes (MESSAGE_LENGTH_MAX - transform overhead)");
    msg.append("; reduce payload size");
    Error::Others(msg)
}

/// Finishes a frame pipeline on the transform's result `t`.
pub fn finish_msg(msg: &mut GenMessage, t: Result<Vec<u8>, String>, dir: &str, rpc_error: bool) -> (r:
    Result<(), Error>)
    ensures
        (final(msg)@, unit_result_view(r)) == msg_outcome(old(msg)@, transform_view(t), dir@, rpc_error),
{
    match t {
        Err(e) => {
            msg.payload = Vec::new();
            let text = crate::text::join3(dir, " failed: ", e.as_str());
            Err(Error::Others(text))
        }
        Ok(v) => {
            msg.header.length = v.len() as u32;
            msg.payload = v;
            check_oversize(msg.payload.len(), rpc_error)
        }
    }
}

#[verifier::external_type_specification]
#[verifier::external_body]
pub struct ExIoError(std::io::Error);

/// Structured error of a connection hook.
pub enum HookError {
    /// The application rejected the connection.
    Rejected(String),
    /// The handshake or an I/O operation timed out.
    Timeout,
    /// An I/O error during the handshake.
    Io(std::io::Error),
    /// Any other error.
    Other(String),
}

/// The `Debug` rendering of an I/O error.
///
/// Calls `<std::io::Error as Debug>::fmt`; its text may come from the platform,
/// so nothing is stated about it.
#[verifier::external_body]
fn io_error_debug(e: &std::io::Error) -> String {
    format!("{:?}", e)
}

/// The `Display` rendering of an I/O error.
///
/// Calls `<std::io::Error as Display>::fmt`; its text may come from the
/// platform, so nothing is stated about it.
#[verifier::external_body]
fn io_error_display(e: &std::io::Error) -> String {
    e.to_string()
}

/// Whether `t` is the debug text of hook error `e`: the variant name with its
/// message in parentheses; for an I/O error, `Io(`, the error's own debug text
/// and `)`.
pub open spec fn is_hook_debug_text(e: &HookError, t: Seq<char>) -> bool {
    match e {
        HookError::Rejected(m) => t == "Rejected("@ + m@ + ")"@,
        HookError::Timeout => t == "Timeout"@,
        HookError::Io(_) => exists|inner: Seq<char>| t == "Io("@ + inner + ")"@,
        HookError::Other(m) => t == "Other("@ + m@ + ")"@,
    }
}

/// Whether `t` is the display text of hook error `e`.
pub open spec fn is_hook_display_text(e: &HookError, t: Seq<char>) -> bool {
    match e {
        HookError::Rejected(m) => t == "connection rejected: "@ + m@,
        HookError::Timeout => t == "handshake timeout"@,
        HookError::Io(_) => exists|inner: Seq<char>| t == "I/O error: "@ + inner,
        HookError::Other(m) => t == m@,
    }
}

impl HookError {
    /// The debug text of this error.
    pub fn debug_text(&self) -> (t: String)
        ensures
            is_hook_debug_text(self, t@),
    {
        match self {
            HookError::Rejected(m) => crate::text::join3("Rejected(", m.as_str(), ")"),
            HookError::Timeout => String::from_str("Timeout"),
            HookError::Io(e) => {
                let inner = io_error_debug(e);
                let t = crate::text::join3("Io(", inner.as_str(), ")");
                assert(t@ == "Io("@ + inner@ + ")"@);
                t
            },
            HookError::Other(m) => crate::text::join3("Other(", m.as_str(), ")"),
        }
    }

    /// The display text of this error.
    pub fn display_text(&self) -> (t: String)
        ensures
            is_hook_display_text(self, t@),
    {
        match self {
            HookError::Rejected(m) => crate::text::join2("connection rejected: ", m.as_str()),
            HookError::Timeout => String::from_str("handshake timeout"),
            HookError::Io(e) => {
                let inner = io_error_display(e);
                let t = crate::text::join2("I/O error: ", inner.as_str());
                assert(t@ == "I/O error: "@ + inner@);
                t
            },
            HookError::Other(m) => m.clone(),
        }
    }
}

/// The text of the error for an accept hook that cannot run because the
/// accepted socket carries no raw descriptor.
pub open spec fn missing_fd_text() -> Seq<char> {
    "accept hook requires a raw fd; use Server::bind() or construct Socket from a platform stream (UnixStream, TcpStream, VsockStream)"@
}

/// The error for an accept hook that cannot run because the accepted socket
/// carries no raw descriptor.
pub fn missing_fd_hook_error() -> (e: HookError)
    ensures
        e matches HookError::Other(m) && m@ == missing_fd_text(),
{
    HookError::Other(String::from_str(
        "accept hook requires a raw fd; use Server::bind() or construct Socket from a platform stream (UnixStream, TcpStream, VsockStream)",
    ))
}

/// What the run of an accept hook means for the connection: `finished` is
/// `None` when the hook did not finish in the time allowed, `Some(Err(t))` when
/// the task running it failed with text `t`, else the hook's own result. An
/// accepted connection gets the hook's output; any error closes it.
pub fn accept_outcome<D>(finished: Option<Result<Result<HookOutput<D>, HookError>, String>>) -> (r: Result<
    Option<HookOutput<D>>,
    HookError,
>)
    ensures
        finished is None ==> r matches Err(HookError::Timeout),
        finished matches Some(Err(t)) ==> (r matches Err(HookError::Other(m)) && m@ == "accept hook task failed: "@
            + t@),
        finished matches Some(Ok(Ok(o))) ==> r == Ok::<Option<HookOutput<D>>, HookError>(Some(o)),
        finished matches Some(Ok(Err(e))) ==> r == Err::<Option<HookOutput<D>>, HookError>(e),
{
    match finished {
        None => Err(HookError::Timeout),
        Some(Err(t)) => Err(HookError::Other(crate::text::join2("accept hook task failed: ", t.as_str()))),
        Some(Ok(Ok(o))) => Ok(Some(o)),
        Some(Ok(Err(e))) => Err(e),
    }
}

/// The text of the error for a client whose connect hook refused descriptor
/// `fd`: `prefix`, the descriptor, then the hook error's display text `shown`.
pub open spec fn connect_hook_failure_text(prefix: Seq<char>, fd: i32, shown: Seq<char>) -> Seq<char> {
    prefix + "(fd="@ + signed_decimal(fd as int) + "): "@ + shown
}

/// The error a client reports when its connect hook refuses descriptor `fd`;
/// the blocking client says so under its own name.
pub fn connect_hook_failure(blocking: bool, fd: i32, e: &HookError) -> (r: Error)
    ensures
        r matches Error::Others(m) && exists|shown: Seq<char>|
            is_hook_display_text(e, shown) && m@ == connect_hook_failure_text(
                if blocking {
                    "sync client connect hook failed "@
                } else {
                    "client connect hook failed "@
                },
                fd,
                shown,
            ),
{
    let mut t = if blocking {
        String::from_str("sync client connect hook failed ")
    } else {
        String::from_str("client connect hook failed ")
    };
    let ghost prefix = t@;
    t.append("(fd=");
    let d = i32_text(fd);
    t.append(d.as_str());
    t.append("): ");
    let shown = e.display_text();
    t.append(shown.as_str());
    assert(t@ =~= connect_hook_failure_text(prefix, fd, shown@));
    Error::Others(t)
}

/// The error a client reports when a connect hook is set but the socket has
/// no raw descriptor to hand it.
pub fn connect_hook_without_fd() -> (r: Error)
    ensures
        r@ == ErrorView::Others(
            "client connect hook configured but socket has no raw fd; construct the Socket via Socket::connect or Socket::from(<platform stream>)"@,
        ),
{
    Error::Others(String::from_str(
        "client connect hook configured but socket has no raw fd; construct the Socket via Socket::connect or Socket::from(<platform stream>)",
    ))
}

/// Which descriptor an accept hook runs on: none when no hook is set (the
/// connection is accepted with empty defaults and the hook is not called); the
/// connection's descriptor when there is one; else the missing-descriptor error,
/// without calling the hook.
pub fn accept_hook_target(hook_set: bool, fd: Option<i32>) -> (r: Result<Option<i32>, HookError>)
    ensures
        !hook_set ==> r == Ok::<Option<i32>, HookError>(None),
        hook_set && fd is Some ==> r == Ok::<Option<i32>, HookError>(fd),
        hook_set && fd is None ==> (r matches Err(HookError::Other(m)) && m@ == missing_fd_text()),
{
    if !hook_set {
        return Ok(None);
    }
    match fd {
        Some(d) => Ok(Some(d)),
        None => Err(missing_fd_hook_error()),
    }
}

/// Which descriptor a client's connect hook runs on: the socket's, or the
/// missing-descriptor error when the socket has none.
pub fn connect_hook_target(fd: Option<i32>) -> (r: Result<i32, Error>)
    ensures
        fd matches Some(d) ==> r == Ok::<i32, Error>(d),
        fd is None ==> (r matches Err(e) && e@ == ErrorView::Others(
            "client connect hook configured but socket has no raw fd; construct the Socket via Socket::connect or Socket::from(<platform stream>)"@,
        )),
{
    match fd {
        Some(d) => Ok(d),
        None => Err(connect_hook_without_fd()),
    }
}

/// The connection context a client gets from its connect hook's result on
/// descriptor `fd`: the hook's data and transform, or the error that names the
/// descriptor and the hook's failure.
pub fn connect_hook_context<D: Default>(blocking: bool, fd: i32, result: Result<HookOutput<D>, HookError>) -> (r:
    Result<ConnectionContext<D>, Error>)
    ensures
        result matches Ok(o) ==> (r matches Ok(c) && c.data_value() == o.data && (c.has_transform()
            <==> o.payload_transform is Some)),
        result matches Err(e) ==> (r matches Err(Error::Others(m)) && exists|shown: Seq<char>|
            is_hook_display_text(&e, shown) && m@ == connect_hook_failure_text(
                if blocking {
                    "sync client connect hook failed "@
                } else {
                    "client connect hook failed "@
                },
                fd,
                shown,
            )),
{
    match result {
        Ok(o) => Ok(ConnectionContext::new(Some(o))),
        Err(e) => Err(connect_hook_failure(blocking, fd, &e)),
    }
}

/// Opaque data and an optional payload transform, attached to one connection.
pub struct ConnectionContext<D> {
    /// Opaque per-connection data, immutable after the connection is set up.
    pub data: Arc<D>,
    /// Optional payload transform; `None` passes payloads through.
    pub payload_transform: Option<Arc<dyn PayloadTransform>>,
    /// Serializes outbound transform and enqueue on the blocking path, so a
    /// stateful transform sees frames in wire order.
    sync_outbound_lock: std::sync::Mutex<()>,
}

/// What an accept or connect hook produces for an accepted connection.
pub struct HookOutput<D> {
    /// Opaque data attached to the connection.
    pub data: D,
    /// Optional payload transform for the connection.
    pub payload_transform: Option<Box<dyn PayloadTransform>>,
}

#[verifier::external_type_specification]
#[verifier::external_body]
#[verifier::reject_recursive_types(T)]
pub struct ExMutex<T: ?Sized>(std::sync::Mutex<T>);

#[verifier::external_type_specification]
#[verifier::external_body]
#[verifier::reject_recursive_types(T)]
pub struct ExSender<T>(std::sync::mpsc::Sender<T>);

/// A fresh, unlocked mutex.
///
/// Calls `std::sync::Mutex::new`.
#[verifier::external_body]
fn new_lock() -> std::sync::Mutex<()> {
    std::sync::Mutex::new(())
}

#[verifier::external_type_specification]
#[verifier::external_body]
#[verifier::reject_recursive_types(T)]
pub struct ExMutexGuard<'a, T: ?Sized + 'a>(std::sync::MutexGuard<'a, T>);

/// Takes `lock` until the returned guard is dropped.
///
/// Calls `std::sync::Mutex::lock`; a lock poisoned by a panicking holder is
/// taken over rather than refused. Nothing is stated about the guard.
#[verifier::external_body]
fn lock_outbound(lock: &std::sync::Mutex<()>) -> std::sync::MutexGuard<'_, ()> {
    match lock.lock() {
        Ok(g) => g,
        Err(poisoned) => poisoned.into_inner(),
    }
}

/// Sends one frame on a channel; on failure, the channel's error text.
///
/// Calls `std::sync::mpsc::Sender::send`, which fails only when the receiver is
/// gone; nothing is stated about when that happens or about the text.
#[verifier::external_body]
fn channel_send(
    tx: &std::sync::mpsc::Sender<(MessageHeader, Vec<u8>)>,
    frame: (MessageHeader, Vec<u8>),
) -> Result<(), String> {
    match tx.send(frame) {
        Ok(()) => Ok(()),
        Err(e) => Err(e.to_string()),
    }
}

/// Turns a boxed transform into a shared one.
///
/// Calls `<Arc<T> as From<Box<T>>>::from`, which moves the value into a new
/// reference-counted allocation.
#[verifier::external_body]
fn into_shared<T: ?Sized>(b: Box<T>) -> Arc<T> {
    Arc::from(b)
}

/// Another sender on the same channel.
///
/// Calls `<std::sync::mpsc::Sender<T> as Clone>::clone`; nothing about the
/// result is stated.
#[verifier::external_body]
fn clone_sender(
    tx: &std::sync::mpsc::Sender<(MessageHeader, Vec<u8>)>,
) -> std::sync::mpsc::Sender<(MessageHeader, Vec<u8>)> {
    tx.clone()
}

/// The sending half of a connection's frame channel, with the frames it has
/// handed to the channel.
pub struct FrameSender {
    tx: std::sync::mpsc::Sender<(MessageHeader, Vec<u8>)>,
    sent: Ghost<Seq<(MessageHeader, Seq<u8>)>>,
}

impl FrameSender {
    /// The frames handed to the channel through this sender, oldest first.
    pub closed spec fn sent(&self) -> Seq<(MessageHeader, Seq<u8>)> {
        self.sent@
    }

    /// A sender on `tx` that has sent nothing yet.
    pub fn new(tx: std::sync::mpsc::Sender<(MessageHeader, Vec<u8>)>) -> (s: Self)
        ensures
            s.sent() == Seq::<(MessageHeader, Seq<u8>)>::empty(),
    {
        FrameSender { tx, sent: Ghost(Seq::empty()) }
    }

    /// Hands `frame` to the channel; on success it is recorded as sent, on
    /// failure (the receiver is gone) nothing is recorded and the error says so.
    pub fn send(&mut self, frame: (MessageHeader, Vec<u8>)) -> (r: Result<(), Error>)
        ensures
            r is Ok ==> final(self).sent() == old(self).sent().push((frame.0, frame.1@)),
            r matches Err(e) ==> final(self).sent() == old(self).sent() && channel_failure(e@),
    {
        let ghost v = (frame.0, frame.1@);
        match channel_send(&self.tx, frame) {
            Ok(()) => {
                self.sent = Ghost(self.sent@.push(v));
                Ok(())
            },
            Err(t) => Err(Error::Others(crate::text::join2("send to wire channel failed: ", t.as_str()))),
        }
    }
}

impl Clone for FrameSender {
    /// Another sender on the same channel, which has sent nothing yet.
    fn clone(&self) -> (s: Self)
        ensures
            s.sent() == Seq::<(MessageHeader, Seq<u8>)>::empty(),
    {
        FrameSender { tx: clone_sender(&self.tx), sent: Ghost(Seq::empty()) }
    }
}

/// Whether `e` is the error for a frame the channel did not take.
pub open spec fn channel_failure(e: ErrorView) -> bool {
    exists|t: Seq<char>| e == ErrorView::Others("send to wire channel failed: "@ + t)
}

/// A framing result, seen as sequences.
pub open spec fn frame_view(r: Result<(MessageHeader, Vec<u8>), Error>) -> Result<(MessageHeader, Seq<u8>), ErrorView> {
    match r {
        Ok((h, b)) => Ok((h, b@)),
        Err(e) => Err(e@),
    }
}

/// The frame under header `mh` for a payload result `p`: the header's length
/// becomes the payload's.
pub open spec fn framed(mh: MessageHeader, p: Result<Seq<u8>, ErrorView>) -> Result<(MessageHeader, Seq<u8>), ErrorView> {
    match p {
        Ok(b) => Ok((MessageHeader { length: b.len() as u32, ..mh }, b)),
        Err(e) => Err(e),
    }
}

/// What sending the framing result `f` leaves in a sender that had sent
/// `before` and now has sent `after`, and answers `r`: a framing error is
/// answered and nothing is sent; a frame is sent and `Ok` answered, unless the
/// channel refuses it.
pub open spec fn send_outcome(
    before: Seq<(MessageHeader, Seq<u8>)>,
    after: Seq<(MessageHeader, Seq<u8>)>,
    f: Result<(MessageHeader, Seq<u8>), ErrorView>,
    r: Result<(), Error>,
) -> bool {
    match f {
        Err(e) => after == before && (r matches Err(x) && x@ == e),
        Ok(fr) => match r {
            Ok(()) => after == before.push(fr),
            Err(x) => after == before && channel_failure(x@),
        },
    }
}

impl<D: Default> Default for ConnectionContext<D> {
    /// Default data and no transform.
    fn default() -> (c: Self)
        ensures
            !c.has_transform(),
    {
        ConnectionContext {
            data: Arc::new(D::default()),
            payload_transform: None,
            sync_outbound_lock: new_lock(),
        }
    }
}

impl<D> ConnectionContext<D> {
    /// Whether a payload transform is attached.
    pub closed spec fn has_transform(&self) -> bool {
        self.payload_transform is Some
    }

    /// The attached data.
    pub closed spec fn data_value(&self) -> D {
        *self.data
    }

    /// Whether `o` is an overhead that the attached transform declares.
    pub closed spec fn declared_overhead(&self, o: nat) -> bool {
        match self.payload_transform {
            Some(t) => o <= usize::MAX && declares_overhead(&*t, o as usize),
            None => false,
        }
    }

    /// Whether `r` is an answer of the attached transform's outbound direction
    /// for `data` under the authenticated bytes `aad`.
    pub closed spec fn outbound_gives(&self, data: Seq<u8>, aad: Seq<u8>, r: Result<Seq<u8>, Seq<char>>) -> bool {
        match self.payload_transform {
            Some(t) => outbound_answer(&*t, data, aad, r),
            None => false,
        }
    }

    /// Whether `r` is an answer of the attached transform's inbound direction
    /// for `data` under the authenticated bytes `aad`.
    pub closed spec fn inbound_gives(&self, data: Seq<u8>, aad: Seq<u8>, r: Result<Seq<u8>, Seq<char>>) -> bool {
        match self.payload_transform {
            Some(t) => inbound_answer(&*t, data, aad, r),
            None => false,
        }
    }

    /// Creates a context from a hook's output: its data and transform, or
    /// default data and no transform when there is no output.
    pub fn new(output: Option<HookOutput<D>>) -> (c: Self)
        where
            D: Default,
        ensures
            c.has_transform() <==> (output matches Some(o) && o.payload_transform is Some),
            output matches Some(o) ==> c.data_value() == o.data,
            output is None ==> call_ensures(D::default, (), c.data_value()),
    {
        match output {
            Some(o) => {
                let t = match o.payload_transform {
                    Some(b) => Some(into_shared(b)),
                    None => None,
                };
                ConnectionContext { data: Arc::new(o.data), payload_transform: t, sync_outbound_lock: new_lock() }
            },
            None => ConnectionContext {
                data: Arc::new(D::default()),
                payload_transform: None,
                sync_outbound_lock: new_lock(),
            },
        }
    }

    /// The largest raw payload that is sure to fit within [`MESSAGE_LENGTH_MAX`]
    /// after the outbound transform: the whole limit without a transform, else
    /// the limit less the transform's declared overhead.
    pub fn max_raw_payload_len(&self) -> (n: usize)
        ensures
            n <= MESSAGE_LENGTH_MAX,
            !self.has_transform() ==> n == MESSAGE_LENGTH_MAX,
            self.has_transform() ==> exists|o: nat| self.declared_overhead(o) && n == raw_limit(o),
    {
        match &self.payload_transform {
            Some(x) => {
                let o = x.max_overhead();
                let n = raw_payload_limit(o);
                assert(n == raw_limit(o as nat));
                n
            },
            None => MESSAGE_LENGTH_MAX,
        }
    }

    /// Applies the inbound transform, if any; without one, returns `payload`.
    pub fn transform_inbound(&self, payload: Vec<u8>, aad: &[u8]) -> (r: Result<Vec<u8>, String>)
        ensures
            !self.has_transform() ==> transform_view(r) == Ok::<Seq<u8>, Seq<char>>(payload@),
            self.has_transform() ==> self.inbound_gives(payload@, aad@, transform_view(r)),
    {
        match &self.payload_transform {
            Some(x) => x.transform_inbound(payload, aad),
            None => Ok(payload),
        }
    }

    /// Applies the outbound transform, if any; without one, returns `payload`.
    pub fn transform_outbound(&self, payload: Vec<u8>, aad: &[u8]) -> (r: Result<Vec<u8>, String>)
        ensures
            !self.has_transform() ==> transform_view(r) == Ok::<Seq<u8>, Seq<char>>(payload@),
            self.has_transform() ==> self.outbound_gives(payload@, aad@, transform_view(r)),
    {
        match &self.payload_transform {
            Some(x) => x.transform_outbound(payload, aad),
            None => Ok(payload),
        }
    }

    /// Inbound pipeline on a buffer: transform, then enforce the size limit.
    pub fn inbound_buf(&self, data: Vec<u8>, aad: &[u8], rpc_error: bool) -> (r: Result<Vec<u8>, Error>)
        ensures
            !self.has_transform() ==> buf_result_view(r) == size_checked(data@, rpc_error),
            self.has_transform() ==> exists|t: Result<Seq<u8>, Seq<char>>|
                self.inbound_gives(data@, aad@, t) && buf_result_view(r) == buf_outcome(t, "transform_inbound"@, rpc_error),
            self.has_transform() ==> (r matches Ok(b) ==> self.inbound_gives(data@, aad@, Ok(b@))),
    {
        match &self.payload_transform {
            Some(x) => {
                let t = x.transform_inbound(data, aad);
                let ghost tv = transform_view(t);
                let r = finish_buf(t, "transform_inbound", rpc_error);
                assert(buf_result_view(r) == buf_outcome(tv, "transform_inbound"@, rpc_error));
                r
            },
            None => {
                match check_oversize(data.len(), rpc_error) {
                    Ok(()) => Ok(data),
                    Err(e) => Err(e),
                }
            },
        }
    }

    /// Outbound pipeline on a buffer: refuse a raw buffer over the transform-safe
    /// limit without transforming it, else transform and enforce the size limit.
    pub fn outbound_buf(&self, data: Vec<u8>, aad: &[u8], rpc_error: bool) -> (r: Result<Vec<u8>, Error>)
        ensures
            !self.has_transform() ==> buf_result_view(r) == size_checked(data@, rpc_error),
            self.has_transform() ==> exists|o: nat, t: Result<Seq<u8>, Seq<char>>|
                self.declared_overhead(o) && (data@.len() <= raw_limit(o) ==> self.outbound_gives(data@, aad@, t))
                    && buf_result_view(r) == outbound_buf_outcome(data@.len(), raw_limit(o), t, rpc_error),
            self.has_transform() ==> (r matches Ok(b) ==> self.outbound_gives(data@, aad@, Ok(b@))),
    {
        match &self.payload_transform {
            Some(x) => {
                let o = x.max_overhead();
                let max_len = raw_payload_limit(o);
                if data.len() > max_len {
                    let r = Err(buf_limit_error(data.len(), max_len));
                    assert(buf_result_view(r) == outbound_buf_outcome(data@.len(), raw_limit(o as nat),
                        Err(Seq::<char>::empty()), rpc_error));
                    return r;
                }
                let ghost len = data@.len();
                let t = x.transform_outbound(data, aad);
                let ghost tv = transform_view(t);
                let r = finish_buf(t, "transform_outbound", rpc_error);
                assert(buf_result_view(r) == outbound_buf_outcome(len, raw_limit(o as nat), tv, rpc_error));
                r
            },
            None => {
                match check_oversize(data.len(), rpc_error) {
                    Ok(()) => Ok(data),
                    Err(e) => Err(e),
                }
            },
        }
    }

    /// The cancellation control that a frame keeps once the outbound pipeline
    /// has run on it: none when a transform is attached, since a stateful
    /// transform has then advanced its state and the frame must reach the wire;
    /// else the caller's control.
    pub fn send_control<C>(&self, control: Option<C>) -> (r: Option<C>)
        ensures
            self.has_transform() ==> r is None,
            !self.has_transform() ==> r == control,
    {
        if self.payload_transform.is_some() {
            None
        } else {
            control
        }
    }

    /// Runs the outbound buffer pipeline on an encoded response and frames it:
    /// the header `mh` with its length set to the transformed payload's length.
    pub fn frame_response(&self, buf: Vec<u8>, aad: &[u8], mh: MessageHeader) -> (r: Result<
        (MessageHeader, Vec<u8>),
        Error,
    >)
        ensures
            r matches Ok((h, b)) ==> b@.len() <= MESSAGE_LENGTH_MAX,
            !self.has_transform() ==> frame_view(r) == framed(mh, size_checked(buf@, true)),
            self.has_transform() ==> exists|o: nat, t: Result<Seq<u8>, Seq<char>>|
                self.declared_overhead(o) && (buf@.len() <= raw_limit(o) ==> self.outbound_gives(buf@, aad@, t))
                    && frame_view(r) == framed(mh, outbound_buf_outcome(buf@.len(), raw_limit(o), t, true)),
            self.has_transform() ==> (r matches Ok((h, b)) ==> self.outbound_gives(buf@, aad@, Ok(b@))),
    {
        let ghost len = buf@.len();
        let ghost bv = buf@;
        match self.outbound_buf(buf, aad, true) {
            Ok(b) => {
                let h = MessageHeader { length: b.len() as u32, ..mh };
                let r = Ok((h, b));
                assert(frame_view(r) == framed(mh, buf_result_view(Ok::<Vec<u8>, Error>(b))));
                r
            },
            Err(e) => {
                let ghost ev = e@;
                let r = Err(e);
                assert(frame_view(r) == framed(mh, Err::<Seq<u8>, ErrorView>(ev)));
                r
            },
        }
    }

    /// Frames a response as [`frame_response`](Self::frame_response) does and
    /// sends it on `tx`, holding the connection's outbound lock throughout so a
    /// stateful transform sees frames in wire order.
    pub fn send_response_sync(
        &self,
        buf: Vec<u8>,
        aad: &[u8],
        tx: &mut FrameSender,
        mh: MessageHeader,
    ) -> (r: Result<(), Error>)
        ensures
            !self.has_transform() ==> send_outcome(
                old(tx).sent(),
                final(tx).sent(),
                framed(mh, size_checked(buf@, true)),
                r,
            ),
            self.has_transform() ==> exists|o: nat, t: Result<Seq<u8>, Seq<char>>|
                self.declared_overhead(o) && (buf@.len() <= raw_limit(o) ==> self.outbound_gives(buf@, aad@, t))
                    && send_outcome(
                    old(tx).sent(),
                    final(tx).sent(),
                    framed(mh, outbound_buf_outcome(buf@.len(), raw_limit(o), t, true)),
                    r,
                ),
    {
        let _guard = lock_outbound(&self.sync_outbound_lock);
        match self.frame_response(buf, aad, mh) {
            Ok(frame) => tx.send(frame),
            Err(e) => Err(e),
        }
    }

    /// Inbound pipeline on a frame: transform the payload with the header's
    /// authenticated bytes, update the header length, enforce the size limit.
    pub fn inbound(&self, msg: &mut GenMessage, rpc_error: bool) -> (r: Result<(), Error>)
        ensures
            !self.has_transform() ==> final(msg)@ == old(msg)@ && unit_result_view(r)
                == msg_size_result(old(msg)@, rpc_error),
            self.has_transform() ==> exists|t: Result<Seq<u8>, Seq<char>>|
                self.inbound_gives(old(msg)@.payload, aad_bytes(old(msg)@.header), t)
                    && (final(msg)@, unit_result_view(r)) == msg_outcome(old(msg)@, t, "transform_inbound"@, rpc_error),
            self.has_transform() ==> (r is Ok ==> self.inbound_gives(
                old(msg)@.payload,
                aad_bytes(final(msg)@.header),
                Ok(final(msg)@.payload),
            )),
    {
        match &self.payload_transform {
            Some(x) => {
                let aad = serialize_aad(&msg.header);
                let mut payload: Vec<u8> = Vec::new();
                std::mem::swap(&mut payload, &mut msg.payload);
                let t = x.transform_inbound(payload, &aad);
                let ghost tv = transform_view(t);
                let r = finish_msg(msg, t, "transform_inbound", rpc_error);
                assert((msg@, unit_result_view(r)) == msg_outcome(old(msg)@, tv, "transform_inbound"@, rpc_error));
                r
            },
            None => check_oversize(msg.payload.len(), rpc_error),
        }
    }

    /// Outbound pipeline on a frame: refuse a payload over the transform-safe
    /// limit, else transform it with the header's authenticated bytes, update
    /// the header length and enforce the size limit.
    pub fn outbound(&self, msg: &mut GenMessage, rpc_error: bool) -> (r: Result<(), Error>)
        ensures
            !self.has_transform() ==> final(msg)@ == old(msg)@ && unit_result_view(r)
                == msg_size_result(old(msg)@, rpc_error),
            self.has_transform() ==> exists|o: nat, t: Result<Seq<u8>, Seq<char>>|
                self.declared_overhead(o) && (old(msg)@.payload.len() <= raw_limit(o) ==> self.outbound_gives(
                    old(msg)@.payload,
                    aad_bytes(old(msg)@.header),
                    t,
                )) && (final(msg)@, unit_result_view(r)) == outbound_msg_outcome(old(msg)@, raw_limit(o), t, rpc_error),
            self.has_transform() ==> (r is Ok ==> self.outbound_gives(
                old(msg)@.payload,
                aad_bytes(final(msg)@.header),
                Ok(final(msg)@.payload),
            )),
    {
        match &self.payload_transform {
            Some(x) => {
                let o = x.max_overhead();
                let max_len = raw_payload_limit(o);
                if msg.payload.len() > max_len {
                    let r = Err(msg_limit_error(msg.payload.len(), max_len));
                    assert((msg@, unit_result_view(r)) == outbound_msg_outcome(old(msg)@, raw_limit(o as nat),
                        Err(Seq::<char>::empty()), rpc_error));
                    return r;
                }
                let aad = serialize_aad(&msg.header);
                let mut payload: Vec<u8> = Vec::new();
                std::mem::swap(&mut payload, &mut msg.payload);
                let t = x.transform_outbound(payload, &aad);
                let ghost tv = transform_view(t);
                let r = finish_msg(msg, t, "transform_outbound", rpc_error);
                assert((msg@, unit_result_view(r)) == outbound_msg_outcome(old(msg)@, raw_limit(o as nat), tv, rpc_error));
                r
            },
            None => check_oversize(msg.payload.len(), rpc_error),
        }
    }
}

} // verus!
