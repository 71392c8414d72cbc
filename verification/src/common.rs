//! Socket address parsing: the scheme of an address and the `cid:port` of a
//! vsock address.

use crate::error::{Error, ErrorView};
use crate::text::{quoted, quoted_text};
use vstd::prelude::*;
use vstd::string::*;

verus! {

/// The transport that an address names.
#[derive(Debug, Clone, Copy, PartialEq, Eq, Structural)]
pub enum Domain {
    /// A Unix domain socket.
    Unix,
    /// A TCP socket.
    Tcp,
    /// A VM socket.
    Vsock,
}

/// `s` starts with `p`.
pub open spec fn has_prefix(s: Seq<char>, p: Seq<char>) -> bool {
    p.len() <= s.len() && s.take(p.len() as int) == p
}

/// The rest of `s` after the prefix `p`.
///
/// Calls `str::strip_prefix`, documented to return the subslice after the
/// prefix when `s` starts with it, and `None` otherwise.
#[verifier::external_body]
pub(crate) fn strip_prefix<'a>(s: &'a str, p: &str) -> (r: Option<&'a str>)
    ensures
        r is Some <==> has_prefix(s@, p@),
        r matches Some(rest) ==> rest@ == s@.skip(p@.len() as int),
{
    s.strip_prefix(p)
}

/// What parsing an address gives: the domain and the rest of the address after
/// its scheme, for the schemes `unix://`, `vsock://` and `tcp://` tried in
/// that order; `None` for any other scheme.
pub open spec fn sockaddr_parts(addr: Seq<char>) -> Option<(Domain, Seq<char>)> {
    if has_prefix(addr, "unix://"@) {
        Some((Domain::Unix, addr.skip(7)))
    } else if has_prefix(addr, "vsock://"@) {
        Some((Domain::Vsock, addr.skip(8)))
    } else if has_prefix(addr, "tcp://"@) {
        Some((Domain::Tcp, addr.skip(6)))
    } else {
        None
    }
}

/// Splits an address into its domain and the rest after the scheme.
pub fn parse_sockaddr(addr: &str) -> (r: Result<(Domain, &str), Error>)
    ensures
        match r {
            Ok((d, rest)) => sockaddr_parts(addr@) == Some((d, rest@)),
            Err(e) => sockaddr_parts(addr@) is None && e@ == ErrorView::Others(
                "Scheme "@ + quoted(addr@) + " is not supported"@,
            ),
        },
{
    proof {
        reveal_strlit("unix://");
        reveal_strlit("vsock://");
        reveal_strlit("tcp://");
    }
    if let Some(rest) = strip_prefix(addr, "unix://") {
        return Ok((Domain::Unix, rest));
    }
    if let Some(rest) = strip_prefix(addr, "vsock://") {
        return Ok((Domain::Vsock, rest));
    }
    if let Some(rest) = strip_prefix(addr, "tcp://") {
        return Ok((Domain::Tcp, rest));
    }
    let q = quoted_text(addr);
    Err(Error::Others(crate::text::join3("Scheme ", q.as_str(), " is not supported")))
}

/// Whether the value of the TCP no-delay setting enables it: `1` or `true` in
/// any letter case enables it; anything else, or no setting, leaves it off.
pub open spec fn nodelay_enabled(val: Option<Seq<char>>) -> bool {
    match val {
        Some(v) => v == "1"@ || ascii_lower(v) == "true"@,
        None => false,
    }
}

/// The ASCII-lowercase form of a string: letters `A`-`Z` lowered, all else kept.
pub open spec fn ascii_lower(s: Seq<char>) -> Seq<char> {
    s.map_values(|c: char| if 'A' <= c && c <= 'Z' { ((c as u32) + 32) as char } else { c })
}

/// Whether two strings are equal ignoring ASCII letter case.
///
/// Calls `str::eq_ignore_ascii_case`, documented as equality of the
/// ASCII-lowercased strings.
#[verifier::external_body]
fn eq_ignore_ascii_case(a: &str, b: &str) -> (r: bool)
    ensures
        r == (ascii_lower(a@) == ascii_lower(b@)),
{
    a.eq_ignore_ascii_case(b)
}

/// Whether two strings are equal.
///
/// Calls `<str as PartialEq>::eq`, equality of the character sequences.
#[verifier::external_body]
fn str_eq(a: &str, b: &str) -> (r: bool)
    ensures
        r == (a@ == b@),
{
    a == b
}

/// Whether the TCP no-delay option is enabled by the setting's value.
pub fn tcp_nodelay_enabled(val: Option<&str>) -> (b: bool)
    ensures
        b == nodelay_enabled(match val {
            Some(v) => Some(v@),
            None => None,
        }),
{
    proof {
        reveal_strlit("true");
        assert(ascii_lower("true"@) =~= "true"@);
    }
    match val {
        Some(v) => str_eq(v, "1") || eq_ignore_ascii_case(v, "true"),
        None => false,
    }
}

/// The view of an optional setting.
pub open spec fn setting_view(val: Option<&str>) -> Option<Seq<char>> {
    match val {
        Some(v) => Some(v@),
        None => None,
    }
}

/// The options set on a new socket of `domain`: port reuse for a TCP socket that
/// binds, and no-delay for a TCP socket whose no-delay setting enables it;
/// other sockets get neither.
pub fn socket_options(domain: Domain, is_bind: bool, nodelay_setting: Option<&str>) -> (r: (bool, bool))
    ensures
        r.0 == (domain == Domain::Tcp && is_bind),
        r.1 == (domain == Domain::Tcp && nodelay_enabled(setting_view(nodelay_setting))),
{
    if domain != Domain::Tcp {
        return (false, false);
    }
    (is_bind, tcp_nodelay_enabled(nodelay_setting))
}

/// Where a Unix socket address points: an abstract name when the address starts
/// with `@` (the name is what follows), else a path.
pub fn unix_address(sockaddr: &str) -> (r: (bool, &str))
    ensures
        has_prefix(sockaddr@, "@"@) ==> r.0 && r.1@ == sockaddr@.skip(1),
        !has_prefix(sockaddr@, "@"@) ==> !r.0 && r.1@ == sockaddr@,
{
    proof {
        reveal_strlit("@");
    }
    match strip_prefix(sockaddr, "@") {
        Some(name) => (true, name),
        None => (false, sockaddr),
    }
}

/// Joins pieces with `:` between neighbours.
pub open spec fn join_colon(pieces: Seq<Seq<char>>) -> Seq<char>
    decreases pieces.len(),
{
    if pieces.len() == 0 {
        Seq::empty()
    } else if pieces.len() == 1 {
        pieces[0]
    } else {
        join_colon(pieces.drop_last()) + seq![':'] + pieces.last()
    }
}

/// The views of a list of string slices.
pub open spec fn slices_view(v: Seq<&str>) -> Seq<Seq<char>> {
    v.map_values(|s: &str| s@)
}

/// The pieces of a string between its colons.
pub uninterp spec fn colon_pieces(s: Seq<char>) -> Seq<Seq<char>>;

/// The pieces of `s` between the colons.
///
/// Calls `str::split(':')` and collects the pieces: at least one piece, none
/// holding a colon, and joined with colons they give `s` back.
#[verifier::external_body]
fn split_colon(s: &str) -> (r: Vec<&str>)
    ensures
        slices_view(r@) == colon_pieces(s@),
        r@.len() >= 1,
        join_colon(slices_view(r@)) == s@,
        forall|i: int| 0 <= i < r@.len() ==> !(#[trigger] r@[i]@).contains(':'),
{
    s.split(':').collect()
}

/// `s` without leading and trailing whitespace.
pub uninterp spec fn trimmed(s: Seq<char>) -> Seq<char>;

/// `s` without leading and trailing Unicode whitespace.
///
/// Calls `str::trim`, whose result depends on the characters alone and is named
/// by `trimmed`.
#[verifier::external_body]
fn trim(s: &str) -> (r: &str)
    ensures
        r@ == trimmed(s@),
{
    s.trim()
}

/// The value of a string of ASCII digits.
pub open spec fn digits_value(s: Seq<char>) -> nat
    decreases s.len(),
{
    if s.len() == 0 {
        0
    } else {
        digits_value(s.drop_last()) * 10 + ((s.last() as nat) - 48) as nat
    }
}

/// Every character is an ASCII digit.
pub open spec fn all_digits(s: Seq<char>) -> bool {
    forall|i: int| 0 <= i < s.len() ==> '0' <= #[trigger] s[i] && s[i] <= '9'
}

/// The digits of an unsigned decimal number: the text after an optional `+`.
pub open spec fn unsigned_digits(s: Seq<char>) -> Seq<char> {
    if s.len() > 0 && s[0] == '+' {
        s.skip(1)
    } else {
        s
    }
}

/// Whether `s` is the decimal text of a `u32`: an optional `+`, then at least
/// one ASCII digit and nothing else, with a value that fits in 32 bits.
pub open spec fn is_u32_text(s: Seq<char>) -> bool {
    let d = unsigned_digits(s);
    d.len() > 0 && all_digits(d) && digits_value(d) <= u32::MAX
}

/// The `Debug` text of the error that parsing `s` as a `u32` gives.
pub uninterp spec fn parse_u32_error_text(s: Seq<char>) -> Seq<char>;

/// Parses `s` as a decimal `u32`.
///
/// Calls `<u32 as FromStr>::from_str`, documented to accept an optional `+`
/// followed by digits only, and to fail on empty input, on any other character
/// and on overflow; the error's `Debug` text is named by `parse_u32_error_text`.
#[verifier::external_body]
fn parse_u32(s: &str) -> (r: Result<u32, String>)
    ensures
        r is Ok <==> is_u32_text(s@),
        r matches Ok(v) ==> v == digits_value(unsigned_digits(s@)),
        r matches Err(t) ==> t@ == parse_u32_error_text(s@),
{
    s.parse::<u32>().map_err(|e| format!("{:?}", e))
}

/// The cid that stands for any address.
///
/// Returns `libc::VMADDR_CID_ANY`, defined in libc's source as `0xFFFFFFFF`.
#[verifier::external_body]
fn vmaddr_cid_any() -> (c: u32)
    ensures
        c == 0xFFFF_FFFFu32,
{
    libc::VMADDR_CID_ANY
}

/// The port of a vsock address part: its decimal value, or the parse error text.
pub open spec fn port_outcome(cid: u32, part: Seq<char>) -> Result<(u32, u32), Seq<char>> {
    if is_u32_text(part) {
        Ok((cid, digits_value(unsigned_digits(part)) as u32))
    } else {
        Err("failed to parse port from "@ + quoted(part) + " error: "@ + parse_u32_error_text(part))
    }
}

/// What parsing a vsock address `cid:port` gives: the cid (any address for a
/// part that trims to `-1`) and the port, or the text of the error when there
/// is not exactly one colon or a part is not a decimal `u32`.
pub open spec fn vsock_outcome(addr: Seq<char>) -> Result<(u32, u32), Seq<char>> {
    let pieces = colon_pieces(addr);
    if pieces.len() != 2 {
        Err("sockaddr "@ + addr + " is not right for vsock"@)
    } else if trimmed(pieces[0]) == "-1"@ {
        port_outcome(0xFFFF_FFFFu32, pieces[1])
    } else if is_u32_text(pieces[0]) {
        port_outcome(digits_value(unsigned_digits(pieces[0])) as u32, pieces[1])
    } else {
        Err("failed to parse cid from "@ + quoted(pieces[0]) + " error: "@ + parse_u32_error_text(pieces[0]))
    }
}

/// Parses a vsock address `cid:port` into its cid and port; a cid of `-1`
/// stands for any address.
pub fn parse_vscok(addr: &str) -> (r: Result<(u32, u32), Error>)
    ensures
        match r {
            Ok(v) => vsock_outcome(addr@) == Ok::<(u32, u32), Seq<char>>(v),
            Err(e) => vsock_outcome(addr@) matches Err(t) && e@ == ErrorView::Others(t),
        },
{
    let pieces = split_colon(addr);
    let ghost pv = slices_view(pieces@);
    let r = if pieces.len() != 2 {
        let a = crate::text::join3("sockaddr ", addr, " is not right for vsock");
        Err(Error::Others(a))
    } else {
        let p0 = pieces[0];
        let p1 = pieces[1];
        proof {
            reveal_strlit("-1");
        }
        let cid = if str_eq(trim(p0), "-1") {
            Ok(vmaddr_cid_any())
        } else {
            match parse_u32(p0) {
                Ok(c) => Ok(c),
                Err(t) => {
                    let q = quoted_text(p0);
                    let mut m = crate::text::join3("failed to parse cid from ", q.as_str(), " error: ");
                    m.append(t.as_str());
                    Err(Error::Others(m))
                },
            }
        };
        match cid {
            Ok(c) => match parse_u32(p1) {
                Ok(port) => Ok((c, port)),
                Err(t) => {
                    let q = quoted_text(p1);
                    let mut m = crate::text::join3("failed to parse port from ", q.as_str(), " error: ");
                    m.append(t.as_str());
                    Err(Error::Others(m))
                },
            },
            Err(e) => Err(e),
        }
    };
    r
}

} // verus!
