//! Errors of clients, servers, framing and streams.

use crate::messages::{code_number, status_view, Any, AnyView, Code, Response, Status, StatusView};
use crate::text::{decimal, i32_text, join2, join3, quoted, quoted_text, signed_decimal, u32_text};
use vstd::string::*;
use vstd::prelude::*;

verus! {

#[verifier::external_type_specification]
#[verifier::external_body]
pub struct ExErrno(nix::errno::Errno);

/// The error type for ttrpc.
#[derive(Debug, PartialEq)]
pub enum Error {
    /// A transport or socket operation failed.
    Socket(String),
    /// The remote endpoint returned a non-OK status.
    RpcStatus(Status),
    /// A Unix platform operation failed.
    Nix(nix::errno::Errno),
    /// The local half of a stream has already been closed.
    LocalClosed,
    /// The remote half of a stream has already been closed.
    RemoteClosed,
    /// The remote endpoint closed a stream without another message.
    Eof,
    /// An error that does not fit a more specific category.
    Others(String),
}

/// The mathematical content of an [`Error`].
pub enum ErrorView {
    Socket(Seq<char>),
    RpcStatus(StatusView),
    Nix(nix::errno::Errno),
    LocalClosed,
    RemoteClosed,
    Eof,
    Others(Seq<char>),
}

impl View for Error {
    type V = ErrorView;

    open spec fn view(&self) -> ErrorView {
        match self {
            Error::Socket(s) => ErrorView::Socket(s@),
            Error::RpcStatus(s) => ErrorView::RpcStatus(s@),
            Error::Nix(e) => ErrorView::Nix(*e),
            Error::LocalClosed => ErrorView::LocalClosed,
            Error::RemoteClosed => ErrorView::RemoteClosed,
            Error::Eof => ErrorView::Eof,
            Error::Others(s) => ErrorView::Others(s@),
        }
    }
}

impl Clone for Error {
    fn clone(&self) -> (r: Self)
        ensures
            r@ == self@,
    {
        match self {
            Error::Socket(s) => Error::Socket(s.clone()),
            Error::RpcStatus(s) => Error::RpcStatus(s.clone()),
            Error::Nix(e) => Error::Nix(*e),
            Error::LocalClosed => Error::LocalClosed,
            Error::RemoteClosed => Error::RemoteClosed,
            Error::Eof => Error::Eof,
            Error::Others(s) => Error::Others(s.clone()),
        }
    }
}

/// The name of a status code, as it appears in a status rendering.
pub open spec fn code_name(c: Code) -> Seq<char> {
    match c {
        Code::OK => "OK"@,
        Code::CANCELLED => "CANCELLED"@,
        Code::UNKNOWN => "UNKNOWN"@,
        Code::INVALID_ARGUMENT => "INVALID_ARGUMENT"@,
        Code::DEADLINE_EXCEEDED => "DEADLINE_EXCEEDED"@,
        Code::NOT_FOUND => "NOT_FOUND"@,
        Code::ALREADY_EXISTS => "ALREADY_EXISTS"@,
        Code::PERMISSION_DENIED => "PERMISSION_DENIED"@,
        Code::RESOURCE_EXHAUSTED => "RESOURCE_EXHAUSTED"@,
        Code::FAILED_PRECONDITION => "FAILED_PRECONDITION"@,
        Code::ABORTED => "ABORTED"@,
        Code::OUT_OF_RANGE => "OUT_OF_RANGE"@,
        Code::UNIMPLEMENTED => "UNIMPLEMENTED"@,
        Code::INTERNAL => "INTERNAL"@,
        Code::UNAVAILABLE => "UNAVAILABLE"@,
        Code::DATA_LOSS => "DATA_LOSS"@,
        Code::UNAUTHENTICATED => "UNAUTHENTICATED"@,
    }
}

/// The name of a status code.
pub fn code_name_text(c: Code) -> (s: &'static str)
    ensures
        s@ == code_name(c),
{
    match c {
        Code::OK => "OK",
        Code::CANCELLED => "CANCELLED",
        Code::UNKNOWN => "UNKNOWN",
        Code::INVALID_ARGUMENT => "INVALID_ARGUMENT",
        Code::DEADLINE_EXCEEDED => "DEADLINE_EXCEEDED",
        Code::NOT_FOUND => "NOT_FOUND",
        Code::ALREADY_EXISTS => "ALREADY_EXISTS",
        Code::PERMISSION_DENIED => "PERMISSION_DENIED",
        Code::RESOURCE_EXHAUSTED => "RESOURCE_EXHAUSTED",
        Code::FAILED_PRECONDITION => "FAILED_PRECONDITION",
        Code::ABORTED => "ABORTED",
        Code::OUT_OF_RANGE => "OUT_OF_RANGE",
        Code::UNIMPLEMENTED => "UNIMPLEMENTED",
        Code::INTERNAL => "INTERNAL",
        Code::UNAVAILABLE => "UNAVAILABLE",
        Code::DATA_LOSS => "DATA_LOSS",
        Code::UNAUTHENTICATED => "UNAUTHENTICATED",
    }
}

/// How a status code number renders: the name of the code it names, or the
/// number itself when it names none.
pub open spec fn code_debug(n: i32) -> Seq<char> {
    if 0 <= n <= 16 {
        code_name(crate::messages::code_of_number(n))
    } else {
        signed_decimal(n as int)
    }
}

/// Renderings separated by `, `.
pub open spec fn comma_joined(items: Seq<Seq<char>>) -> Seq<char>
    decreases items.len(),
{
    if items.len() == 0 {
        Seq::empty()
    } else if items.len() == 1 {
        items[0]
    } else {
        comma_joined(items.drop_last()) + ", "@ + items.last()
    }
}

/// A list's rendering: its items' renderings between brackets.
pub open spec fn list_debug(items: Seq<Seq<char>>) -> Seq<char> {
    "["@ + comma_joined(items) + "]"@
}

/// How bytes render: the list of their decimal values.
pub open spec fn bytes_debug(b: Seq<u8>) -> Seq<char> {
    list_debug(b.map_values(|x: u8| decimal(x as nat)))
}

/// How a detail renders: its type URL quoted and its value's bytes.
pub open spec fn any_debug(a: AnyView) -> Seq<char> {
    "Any { type_url: "@ + quoted(a.type_url) + ", value: "@ + bytes_debug(a.value) + " }"@
}

/// How a status reads inside an error message: its fields in order, the code
/// by name, the message quoted and the list of details.
pub open spec fn status_text(s: StatusView) -> Seq<char> {
    "Status { code: "@ + code_debug(s.code) + ", message: "@ + quoted(s.message) + ", details: "@
        + list_debug(s.details.map_values(|a: AnyView| any_debug(a))) + " }"@
}

/// One more item in a rendering of items separated by `, `.
proof fn lemma_comma_joined_push(items: Seq<Seq<char>>, x: Seq<char>)
    ensures
        comma_joined(items.push(x)) == if items.len() == 0 {
            x
        } else {
            comma_joined(items) + ", "@ + x
        },
{
    assert(items.push(x).drop_last() =~= items);
}

/// The rendering of a status code number.
fn code_debug_text(n: i32) -> (t: String)
    ensures
        t@ == code_debug(n),
{
    if 0 <= n && n <= 16 {
        String::from_str(code_name_text(Code::from_number(n)))
    } else {
        i32_text(n)
    }
}

/// The rendering of bytes.
pub(crate) fn bytes_debug_text(b: &Vec<u8>) -> (t: String)
    ensures
        t@ == bytes_debug(b@),
{
    let ghost items = b@.map_values(|x: u8| decimal(x as nat));
    let mut t = String::from_str("[");
    let mut i: usize = 0;
    while i < b.len()
        invariant
            i <= b@.len(),
            items == b@.map_values(|x: u8| decimal(x as nat)),
            t@ == "["@ + comma_joined(items.take(i as int)),
        decreases b@.len() - i,
    {
        let ghost before = t@;
        if i > 0 {
            t.append(", ");
        }
        let d = u32_text(b[i] as u32);
        t.append(d.as_str());
        proof {
            lemma_comma_joined_push(items.take(i as int), items[i as int]);
            assert(items.take(i as int).push(items[i as int]) =~= items.take(i + 1));
            if i > 0 {
                assert(t@ =~= "["@ + (comma_joined(items.take(i as int)) + ", "@ + items[i as int]));
            } else {
                assert(t@ =~= "["@ + items[i as int]);
            }
        }
        i = i + 1;
    }
    assert(items.take(i as int) =~= items);
    t.append("]");
    t
}

/// The rendering of a detail.
fn any_debug_text(a: &Any) -> (t: String)
    ensures
        t@ == any_debug(a@),
{
    let mut t = String::from_str("Any { type_url: ");
    let q = quoted_text(a.type_url.as_str());
    t.append(q.as_str());
    t.append(", value: ");
    let v = bytes_debug_text(&a.value);
    t.append(v.as_str());
    t.append(" }");
    assert(t@ =~= any_debug(a@));
    t
}

/// The rendering of a status inside an error message.
pub fn status_debug_text(s: &Status) -> (t: String)
    ensures
        t@ == status_text(s@),
{
    let ghost items = s@.details.map_values(|a: AnyView| any_debug(a));
    let mut t = String::from_str("Status { code: ");
    let c = code_debug_text(s.code);
    t.append(c.as_str());
    t.append(", message: ");
    let q = quoted_text(s.message.as_str());
    t.append(q.as_str());
    t.append(", details: ");
    t.append("[");
    let ghost head = t@;
    let mut i: usize = 0;
    while i < s.details.len()
        invariant
            i <= s.details@.len(),
            items == s@.details.map_values(|a: AnyView| any_debug(a)),
            s@.details == s.details@.map_values(|a: Any| a@),
            t@ == head + comma_joined(items.take(i as int)),
        decreases s.details@.len() - i,
    {
        if i > 0 {
            t.append(", ");
        }
        let d = any_debug_text(&s.details[i]);
        proof {
            lemma_comma_joined_push(items.take(i as int), items[i as int]);
            assert(items.take(i as int).push(items[i as int]) =~= items.take(i + 1));
            if i > 0 {
                assert(t@ + d@ =~= head + (comma_joined(items.take(i as int)) + ", "@ + items[i as int]));
            } else {
                assert(t@ + d@ =~= head + items[i as int]);
            }
        }
        t.append(d.as_str());
        i = i + 1;
    }
    assert(items.take(i as int) =~= items);
    t.append("]");
    t.append(" }");
    assert(t@ =~= status_text(s@));
    t
}

/// The human-readable text of an error. The text of a platform error starts
/// with `"Nix error: "`; the rest is the platform's description.
pub open spec fn error_text(e: ErrorView) -> Seq<char>
    recommends
        !(e is Nix),
{
    match e {
        ErrorView::Socket(s) => "socket err: "@ + s,
        ErrorView::RpcStatus(s) => "rpc status: "@ + status_text(s),
        ErrorView::Nix(_) => "Nix error: "@,
        ErrorView::LocalClosed => "ttrpc err: local stream closed"@,
        ErrorView::RemoteClosed => "ttrpc err: remote stream closed"@,
        ErrorView::Eof => "eof"@,
        ErrorView::Others(s) => "ttrpc err: "@ + s,
    }
}

/// Whether `t` is a valid text for error `e`: the exact text, or for a platform
/// error, `"Nix error: "` followed by the platform's description.
pub open spec fn is_error_text(e: ErrorView, t: Seq<char>) -> bool {
    match e {
        ErrorView::Nix(_) => t.len() >= 11 && t.take(11) == "Nix error: "@,
        _ => t == error_text(e),
    }
}

/// The description of a platform error number.
///
/// Calls `<nix::errno::Errno as Display>::fmt`, which writes the variant name,
/// a colon and the static description; nothing about the text is stated.
#[verifier::external_body]
fn errno_description(e: nix::errno::Errno) -> String {
    e.to_string()
}

impl Error {
    /// The human-readable text of this error.
    pub fn message(&self) -> (t: String)
        ensures
            is_error_text(self@, t@),
    {
        match self {
            Error::Socket(s) => join2("socket err: ", s.as_str()),
            Error::RpcStatus(s) => {
                let d = status_debug_text(s);
                join2("rpc status: ", d.as_str())
            }
            Error::Nix(e) => {
                let d = errno_description(*e);
                proof {
                    reveal_strlit("Nix error: ");
                }
                let r = join2("Nix error: ", d.as_str());
                assert(r@.take(11) =~= "Nix error: "@);
                r
            }
            Error::LocalClosed => String::from_str("ttrpc err: local stream closed"),
            Error::RemoteClosed => String::from_str("ttrpc err: remote stream closed"),
            Error::Eof => String::from_str("eof"),
            Error::Others(s) => join2("ttrpc err: ", s.as_str()),
        }
    }
}

/// Whether `t` is the `Debug` rendering of error `e`: the variant's name with
/// its field in parentheses, a string field quoted and a status rendered as in
/// [`status_text`]; for a platform error, the platform's name of the error.
pub open spec fn is_error_debug_text(e: ErrorView, t: Seq<char>) -> bool {
    match e {
        ErrorView::Socket(s) => t == "Socket("@ + quoted(s) + ")"@,
        ErrorView::RpcStatus(st) => t == "RpcStatus("@ + status_text(st) + ")"@,
        ErrorView::Nix(_) => exists|inner: Seq<char>| t == "Nix("@ + inner + ")"@,
        ErrorView::LocalClosed => t == "LocalClosed"@,
        ErrorView::RemoteClosed => t == "RemoteClosed"@,
        ErrorView::Eof => t == "Eof"@,
        ErrorView::Others(s) => t == "Others("@ + quoted(s) + ")"@,
    }
}

/// The `Debug` rendering of a platform error number.
///
/// Calls `<nix::errno::Errno as Debug>::fmt`, which writes the variant's name;
/// nothing about the text is stated.
#[verifier::external_body]
fn errno_debug(e: nix::errno::Errno) -> String {
    format!("{:?}", e)
}

impl Error {
    /// The `Debug` rendering of this error.
    pub fn debug_text(&self) -> (t: String)
        ensures
            is_error_debug_text(self@, t@),
    {
        match self {
            Error::Socket(s) => {
                let q = quoted_text(s.as_str());
                join3("Socket(", q.as_str(), ")")
            },
            Error::RpcStatus(st) => {
                let d = status_debug_text(st);
                join3("RpcStatus(", d.as_str(), ")")
            },
            Error::Nix(e) => {
                let d = errno_debug(*e);
                let t = join3("Nix(", d.as_str(), ")");
                assert(t@ == "Nix("@ + d@ + ")"@);
                t
            },
            Error::LocalClosed => String::from_str("LocalClosed"),
            Error::RemoteClosed => String::from_str("RemoteClosed"),
            Error::Eof => String::from_str("Eof"),
            Error::Others(s) => {
                let q = quoted_text(s.as_str());
                join3("Others(", q.as_str(), ")")
            },
        }
    }
}

/// Creates a status from a code and a message, with no details.
pub fn get_status(c: Code, msg: String) -> (s: Status)
    ensures
        s@ == status_view(c, msg@),
{
    let mut status = Status::new();
    status.set_code(c);
    status.set_message(msg);
    status
}

/// Creates an [`Error::RpcStatus`] from a code and a message.
pub fn get_rpc_status(c: Code, msg: String) -> (e: Error)
    ensures
        e@ == ErrorView::RpcStatus(status_view(c, msg@)),
{
    Error::RpcStatus(get_status(c, msg))
}

/// Text of the error reported when a socket read returns no bytes.
pub open spec fn sock_disconnected() -> Seq<char> {
    "socket disconnected"@
}

/// Converts a short socket read into an error: a zero-byte read is a
/// disconnected socket, any other size an `INVALID_ARGUMENT` status with `msg`.
pub fn sock_error_msg(size: usize, msg: String) -> (e: Error)
    ensures
        size == 0 ==> e@ == ErrorView::Socket(sock_disconnected()),
        size != 0 ==> e@ == ErrorView::RpcStatus(status_view(Code::INVALID_ARGUMENT, msg@)),
{
    if size == 0 {
        return Error::Socket(String::from_str("socket disconnected"));
    }
    get_rpc_status(Code::INVALID_ARGUMENT, msg)
}

/// The status a response built from error `e` carries: the error's own status
/// for a status error, else `UNKNOWN` with the error's text.
pub open spec fn error_status(e: ErrorView, text: Seq<char>) -> StatusView {
    match e {
        ErrorView::RpcStatus(s) => s,
        _ => status_view(Code::UNKNOWN, text),
    }
}

impl Response {
    /// A response carrying the status that describes `e`.
    pub fn from_error(e: Error) -> (r: Response)
        ensures
            r@.payload == Seq::<u8>::empty(),
            r@.status matches Some(s) && (e@ is RpcStatus ==> s == error_status(e@, Seq::empty()))
                && (!(e@ is RpcStatus) ==> s.code == code_number(Code::UNKNOWN) && s.details.len() == 0
                    && is_error_text(e@, s.message)),
    {
        let status = match e {
            Error::RpcStatus(stat) => stat,
            other => {
                let t = other.message();
                get_status(Code::UNKNOWN, t)
            }
        };
        Response { status: Some(status), payload: Vec::new() }
    }
}

} // verus!
