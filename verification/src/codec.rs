//! The protobuf encoding of the ttrpc messages: what each message encodes to,
//! how bytes merge into a message, and the proofs that decoding an encoding
//! gives the message back.

use crate::messages::{
    Any, AnyView, KeyValue, Request, RequestView, Response, ResponseView, Status, StatusView,
};
use crate::proto::{Codec, RequestInit, ResponseInit};
use crate::wire::{
    bytes_at, delimited_field, key_at, lemma_delimited_occurs, lemma_field_progress,
    lemma_occurs_concat, lemma_uint_occurs, occurs_at, put_delimited, put_uint, read_bytes,
    read_delimited, read_key, read_string, read_uint, skip_at, skip_unknown, string_at, uint_at,
    uint_field, delimited_at, locate, key_bytes, varint_bytes, CodecError, WireFault, WIRE_DELIMITED,
    WIRE_VARINT,
};
use vstd::prelude::*;
use vstd::utf8::encode_utf8;

verus! {

// ---------------------------------------------------------------------------
// Scalar fields
// ---------------------------------------------------------------------------

/// A string field: omitted when empty, else its UTF-8 bytes, length-delimited.
pub open spec fn string_field(tag: nat, t: Seq<char>) -> Seq<u8> {
    if t.len() == 0 {
        Seq::empty()
    } else {
        delimited_field(tag, encode_utf8(t))
    }
}

/// A bytes field: omitted when empty, else length-delimited.
pub open spec fn bytes_field(tag: nat, b: Seq<u8>) -> Seq<u8> {
    if b.len() == 0 {
        Seq::empty()
    } else {
        delimited_field(tag, b)
    }
}

/// An `int64` field: omitted when zero, else the two's-complement varint.
pub open spec fn int64_field(tag: nat, v: i64) -> Seq<u8> {
    if v == 0 {
        Seq::empty()
    } else {
        uint_field(tag, (v as u64) as nat)
    }
}

/// An `int32` field: omitted when zero, else the sign-extended varint.
pub open spec fn int32_field(tag: nat, v: i32) -> Seq<u8> {
    if v == 0 {
        Seq::empty()
    } else {
        uint_field(tag, (v as u64) as nat)
    }
}

/// The concatenation of the encodings of `items`, in order.
pub open spec fn repeated<T>(items: Seq<T>, f: spec_fn(T) -> Seq<u8>) -> Seq<u8>
    decreases items.len(),
{
    if items.len() == 0 {
        Seq::empty()
    } else {
        f(items[0]) + repeated(items.drop_first(), f)
    }
}

/// Appending an item appends its encoding.
pub proof fn lemma_repeated_push<T>(items: Seq<T>, x: T, f: spec_fn(T) -> Seq<u8>)
    ensures
        repeated(items.push(x), f) == repeated(items, f) + f(x),
    decreases items.len(),
{
    if items.len() == 0 {
        assert(items.push(x).drop_first() =~= Seq::<T>::empty());
        assert(items.push(x)[0] == x);
        assert(repeated(Seq::<T>::empty(), f) =~= Seq::<u8>::empty());
        assert(repeated(items.push(x), f) =~= f(x) + Seq::<u8>::empty());
    } else {
        assert(items.push(x).drop_first() =~= items.drop_first().push(x));
        lemma_repeated_push(items.drop_first(), x, f);
        assert(repeated(items.push(x), f) =~= f(items[0]) + (repeated(items.drop_first(), f) + f(x)));
    }
}

/// Appends a string field.
fn put_string(tag: u64, t: &String, buf: &mut Vec<u8>)
    requires
        1 <= tag <= 15,
    ensures
        final(buf)@ == old(buf)@ + string_field(tag as nat, t@),
{
    if t.as_str().is_empty() {
        assert(old(buf)@ + string_field(tag as nat, t@) =~= old(buf)@);
    } else {
        put_delimited(tag, t.as_str().as_bytes(), buf);
    }
}

/// Appends a bytes field.
fn put_bytes(tag: u64, b: &Vec<u8>, buf: &mut Vec<u8>)
    requires
        1 <= tag <= 15,
    ensures
        final(buf)@ == old(buf)@ + bytes_field(tag as nat, b@),
{
    if b.len() == 0 {
        assert(old(buf)@ + bytes_field(tag as nat, b@) =~= old(buf)@);
    } else {
        put_delimited(tag, b.as_slice(), buf);
    }
}

/// A string field written at `pos` reads back as its text.
proof fn lemma_string_occurs(s: Seq<u8>, pos: nat, tag: nat, t: Seq<char>)
    requires
        1 <= tag <= 15,
        t.len() > 0,
        encode_utf8(t).len() <= u64::MAX,
        occurs_at(s, pos, string_field(tag, t)),
    ensures
        key_at(s, pos) == Ok::<_, WireFault>((tag, WIRE_DELIMITED, pos + 1)),
        string_at(s, pos + 1, WIRE_DELIMITED) == Ok::<_, WireFault>((t, pos + string_field(tag, t).len())),
{
    lemma_delimited_occurs(s, pos, tag, encode_utf8(t));
    vstd::utf8::encode_utf8_valid_utf8(t);
    vstd::utf8::encode_utf8_decode_utf8(t);
}

/// A bytes field written at `pos` reads back as its bytes.
proof fn lemma_bytes_occurs(s: Seq<u8>, pos: nat, tag: nat, b: Seq<u8>)
    requires
        1 <= tag <= 15,
        b.len() > 0,
        b.len() <= u64::MAX,
        occurs_at(s, pos, bytes_field(tag, b)),
    ensures
        key_at(s, pos) == Ok::<_, WireFault>((tag, WIRE_DELIMITED, pos + 1)),
        bytes_at(s, pos + 1, WIRE_DELIMITED) == Ok::<_, WireFault>((b, pos + bytes_field(tag, b).len())),
{
    lemma_delimited_occurs(s, pos, tag, b);
}

// ---------------------------------------------------------------------------
// KeyValue
// ---------------------------------------------------------------------------

/// The encoding of a metadata entry.
pub open spec fn key_value_bytes(kv: (Seq<char>, Seq<char>)) -> Seq<u8> {
    string_field(1, kv.0) + string_field(2, kv.1)
}

/// Merges the fields between `pos` and `end` into a metadata entry: the entry
/// afterwards, the fault that stopped the merge if any, and where it stopped.
/// A string field that fails to read is left empty.
pub open spec fn key_value_merge(s: Seq<u8>, pos: nat, end: nat, acc: (Seq<char>, Seq<char>)) -> (
    (Seq<char>, Seq<char>),
    Option<WireFault>,
    nat,
)
    decreases s.len() - pos,
{
    if pos >= end || pos >= s.len() {
        (acc, None, pos)
    } else {
        proof {
            lemma_field_progress(s, pos, 0, 0);
        }
        match key_at(s, pos) {
            Err(f) => (acc, Some(f), pos),
            Ok((tag, wt, p)) => {
                proof {
                    lemma_field_progress(s, p, wt, tag);
                }
                if tag == 1 {
                    match string_at(s, p, wt) {
                        Err(f) => ((Seq::empty(), acc.1), Some(locate(f, "KeyValue"@, "key"@)), p),
                        Ok((t, q)) => key_value_merge(s, q, end, (t, acc.1)),
                    }
                } else if tag == 2 {
                    match string_at(s, p, wt) {
                        Err(f) => ((acc.0, Seq::empty()), Some(locate(f, "KeyValue"@, "value"@)), p),
                        Ok((t, q)) => key_value_merge(s, q, end, (acc.0, t)),
                    }
                } else {
                    match skip_at(s, p, wt, tag) {
                        Err(f) => (acc, Some(f), p),
                        Ok(q) => key_value_merge(s, q, end, acc),
                    }
                }
            },
        }
    }
}

impl KeyValue {
    /// Appends the encoding of this entry.
    pub fn encode_to(&self, buf: &mut Vec<u8>)
        ensures
            final(buf)@ == old(buf)@ + key_value_bytes(self@),
    {
        put_string(1, &self.key, buf);
        put_string(2, &self.value, buf);
        assert(final(buf)@ =~= old(buf)@ + key_value_bytes(self@));
    }

    /// Merges the fields of `data` between `pos` and `end` into this entry and
    /// returns where the merge stopped.
    #[verifier::loop_isolation(false)]
    pub fn merge_range(&mut self, data: &[u8], pos: usize, end: usize) -> (r: Result<usize, CodecError>)
        requires
            pos <= data@.len(),
        ensures
            ({
                let (v, f, q) = key_value_merge(data@, pos as nat, end as nat, old(self)@);
                &&& final(self)@ == v
                &&& match r {
                    Ok(p) => f is None && p == q && p <= data@.len(),
                    Err(e) => f == Some(e@),
                }
            }),
    {
        let ghost start = pos;
        let ghost goal = key_value_merge(data@, pos as nat, end as nat, old(self)@);
        let mut pos = pos;
        while pos < end && pos < data.len()
            invariant
                goal == key_value_merge(data@, start as nat, end as nat, old(self)@),
                pos <= data@.len(),
                key_value_merge(data@, pos as nat, end as nat, self@) == goal,
            decreases data@.len() - pos,
        {
            proof {
                lemma_field_progress(data@, pos as nat, 0, 0);
            }
            let (tag, wt, p) = match read_key(data, pos) {
                Ok(k) => k,
                Err(e) => {
                    return Err(e);
                },
            };
            proof {
                lemma_field_progress(data@, p as nat, wt, tag as nat);
            }
            if tag == 1 {
                match read_string(data, p, wt) {
                    Ok((t, q)) => {
                        self.key = t;
                        pos = q;
                    },
                    Err(e) => {
                        self.key = String::new();
                        return Err(e.located("KeyValue", "key"));
                    },
                }
            } else if tag == 2 {
                match read_string(data, p, wt) {
                    Ok((t, q)) => {
                        self.value = t;
                        pos = q;
                    },
                    Err(e) => {
                        self.value = String::new();
                        return Err(e.located("KeyValue", "value"));
                    },
                }
            } else {
                match skip_unknown(data, p, wt, tag) {
                    Ok(q) => {
                        pos = q;
                    },
                    Err(e) => {
                        return Err(e);
                    },
                }
            }
        }
        Ok(pos)
    }
}

/// The fields of an entry's encoding, written at `pos`, merge into the entry.
pub proof fn lemma_key_value_merge_bytes(s: Seq<u8>, pos: nat, kv: (Seq<char>, Seq<char>))
    requires
        occurs_at(s, pos, key_value_bytes(kv)),
        key_value_bytes(kv).len() <= u64::MAX,
    ensures
        key_value_merge(s, pos, pos + key_value_bytes(kv).len(), (Seq::empty(), Seq::empty()))
            == (kv, None::<WireFault>, pos + key_value_bytes(kv).len()),
{
    let end = pos + key_value_bytes(kv).len();
    let f1 = string_field(1, kv.0);
    let f2 = string_field(2, kv.1);
    lemma_occurs_concat(s, pos, f1, f2);
    let p1 = pos + f1.len();
    // after the first field the entry holds the key
    assert(key_value_merge(s, pos, end, (Seq::empty(), Seq::empty())) == key_value_merge(
        s,
        p1,
        end,
        (kv.0, Seq::empty()),
    )) by {
        if kv.0.len() > 0 {
            lemma_string_occurs(s, pos, 1, kv.0);
        } else {
            assert(kv.0 =~= Seq::<char>::empty());
        }
    }
    if kv.1.len() > 0 {
        lemma_string_occurs(s, p1, 2, kv.1);
        assert(key_value_merge(s, end, end, kv) == (kv, None::<WireFault>, end));
    } else {
        assert(kv.1 =~= Seq::<char>::empty());
    }
}

// ---------------------------------------------------------------------------
// Any
// ---------------------------------------------------------------------------

/// The empty `Any`.
pub open spec fn any_default() -> AnyView {
    AnyView { type_url: Seq::empty(), value: Seq::empty() }
}

/// The encoding of an `Any`.
pub open spec fn any_bytes(a: AnyView) -> Seq<u8> {
    string_field(1, a.type_url) + bytes_field(2, a.value)
}

/// Merges the fields between `pos` and `end` into an `Any`, as
/// [`key_value_merge`] does into an entry.
pub open spec fn any_merge(s: Seq<u8>, pos: nat, end: nat, acc: AnyView) -> (AnyView, Option<WireFault>, nat)
    decreases s.len() - pos,
{
    if pos >= end || pos >= s.len() {
        (acc, None, pos)
    } else {
        proof {
            lemma_field_progress(s, pos, 0, 0);
        }
        match key_at(s, pos) {
            Err(f) => (acc, Some(f), pos),
            Ok((tag, wt, p)) => {
                proof {
                    lemma_field_progress(s, p, wt, tag);
                }
                if tag == 1 {
                    match string_at(s, p, wt) {
                        Err(f) => (AnyView { type_url: Seq::empty(), ..acc }, Some(locate(f, "Any"@, "type_url"@)), p),
                        Ok((t, q)) => any_merge(s, q, end, AnyView { type_url: t, ..acc }),
                    }
                } else if tag == 2 {
                    match bytes_at(s, p, wt) {
                        Err(f) => (acc, Some(locate(f, "Any"@, "value"@)), p),
                        Ok((b, q)) => any_merge(s, q, end, AnyView { value: b, ..acc }),
                    }
                } else {
                    match skip_at(s, p, wt, tag) {
                        Err(f) => (acc, Some(f), p),
                        Ok(q) => any_merge(s, q, end, acc),
                    }
                }
            },
        }
    }
}

impl Any {
    /// An `Any` with an empty type URL and value.
    pub fn new() -> (a: Any)
        ensures
            a@ == any_default(),
    {
        let a = Any { type_url: String::new(), value: Vec::new() };
        assert(a@.value =~= Seq::<u8>::empty());
        a
    }

    /// Appends the encoding of this `Any`.
    pub fn encode_to(&self, buf: &mut Vec<u8>)
        ensures
            final(buf)@ == old(buf)@ + any_bytes(self@),
    {
        put_string(1, &self.type_url, buf);
        put_bytes(2, &self.value, buf);
        assert(final(buf)@ =~= old(buf)@ + any_bytes(self@));
    }

    /// Merges the fields of `data` between `pos` and `end` into this `Any`
    /// and returns where the merge stopped.
    #[verifier::loop_isolation(false)]
    pub fn merge_range(&mut self, data: &[u8], pos: usize, end: usize) -> (r: Result<usize, CodecError>)
        requires
            pos <= data@.len(),
        ensures
            ({
                let (v, f, q) = any_merge(data@, pos as nat, end as nat, old(self)@);
                &&& final(self)@ == v
                &&& match r {
                    Ok(p) => f is None && p == q && p <= data@.len(),
                    Err(e) => f == Some(e@),
                }
            }),
    {
        let ghost goal = any_merge(data@, pos as nat, end as nat, old(self)@);
        let mut pos = pos;
        while pos < end && pos < data.len()
            invariant
                pos <= data@.len(),
                any_merge(data@, pos as nat, end as nat, self@) == goal,
            decreases data@.len() - pos,
        {
            proof {
                lemma_field_progress(data@, pos as nat, 0, 0);
            }
            let (tag, wt, p) = match read_key(data, pos) {
                Ok(k) => k,
                Err(e) => {
                    return Err(e);
                },
            };
            proof {
                lemma_field_progress(data@, p as nat, wt, tag as nat);
            }
            if tag == 1 {
                match read_string(data, p, wt) {
                    Ok((t, q)) => {
                        self.type_url = t;
                        pos = q;
                    },
                    Err(e) => {
                        self.type_url = String::new();
                        return Err(e.located("Any", "type_url"));
                    },
                }
            } else if tag == 2 {
                match read_bytes(data, p, wt) {
                    Ok((b, q)) => {
                        self.value = b;
                        pos = q;
                    },
                    Err(e) => {
                        return Err(e.located("Any", "value"));
                    },
                }
            } else {
                match skip_unknown(data, p, wt, tag) {
                    Ok(q) => {
                        pos = q;
                    },
                    Err(e) => {
                        return Err(e);
                    },
                }
            }
        }
        Ok(pos)
    }
}

/// The fields of an `Any`'s encoding, written at `pos`, merge into it.
pub proof fn lemma_any_merge_bytes(s: Seq<u8>, pos: nat, a: AnyView)
    requires
        occurs_at(s, pos, any_bytes(a)),
        any_bytes(a).len() <= u64::MAX,
    ensures
        any_merge(s, pos, pos + any_bytes(a).len(), any_default()) == (a, None::<WireFault>, pos + any_bytes(a).len()),
{
    let end = pos + any_bytes(a).len();
    let f1 = string_field(1, a.type_url);
    let f2 = bytes_field(2, a.value);
    lemma_occurs_concat(s, pos, f1, f2);
    let p1 = pos + f1.len();
    let mid = AnyView { type_url: a.type_url, value: Seq::empty() };
    assert(any_merge(s, pos, end, any_default()) == any_merge(s, p1, end, mid)) by {
        if a.type_url.len() > 0 {
            lemma_string_occurs(s, pos, 1, a.type_url);
        } else {
            assert(a.type_url =~= Seq::<char>::empty());
        }
    }
    if a.value.len() > 0 {
        lemma_bytes_occurs(s, p1, 2, a.value);
        assert(any_merge(s, end, end, a) == (a, None::<WireFault>, end));
    } else {
        assert(a.value =~= Seq::<u8>::empty());
    }
}

// ---------------------------------------------------------------------------
// Status
// ---------------------------------------------------------------------------

/// The `OK` status with an empty message and no details.
pub open spec fn status_default() -> StatusView {
    StatusView { code: 0, message: Seq::empty(), details: Seq::empty() }
}

/// The encoding of one detail, as field 3 of a status.
pub open spec fn detail_field(a: AnyView) -> Seq<u8> {
    delimited_field(3, any_bytes(a))
}

/// The encoding of a status.
pub open spec fn status_bytes(st: StatusView) -> Seq<u8> {
    int32_field(1, st.code) + string_field(2, st.message) + repeated(st.details, |a: AnyView| detail_field(a))
}

/// Merges the fields between `pos` and `end` into a status. A detail is added
/// only when it decodes whole; a code that fails to read is left as it was.
pub open spec fn status_merge(s: Seq<u8>, pos: nat, end: nat, acc: StatusView) -> (StatusView, Option<WireFault>, nat)
    decreases s.len() - pos,
{
    if pos >= end || pos >= s.len() {
        (acc, None, pos)
    } else {
        proof {
            lemma_field_progress(s, pos, 0, 0);
        }
        match key_at(s, pos) {
            Err(f) => (acc, Some(f), pos),
            Ok((tag, wt, p)) => {
                proof {
                    lemma_field_progress(s, p, wt, tag);
                }
                if tag == 1 {
                    match uint_at(s, p, wt) {
                        Err(f) => (acc, Some(locate(f, "Status"@, "code"@)), p),
                        Ok((v, q)) => status_merge(s, q, end, StatusView { code: (v as u64) as i32, ..acc }),
                    }
                } else if tag == 2 {
                    match string_at(s, p, wt) {
                        Err(f) => (StatusView { message: Seq::empty(), ..acc }, Some(locate(f, "Status"@, "message"@)), p),
                        Ok((t, q)) => status_merge(s, q, end, StatusView { message: t, ..acc }),
                    }
                } else if tag == 3 {
                    match delimited_at(s, p, wt) {
                        Err(f) => (acc, Some(locate(f, "Status"@, "details"@)), p),
                        Ok((a, b)) => {
                            let (d, f, q) = any_merge(s, a, b, any_default());
                            match f {
                                Some(f) => (acc, Some(locate(f, "Status"@, "details"@)), q),
                                None => if q != b {
                                    (acc, Some(locate(WireFault::DelimitedLengthExceeded, "Status"@, "details"@)), q)
                                } else {
                                    status_merge(s, q, end, StatusView { details: acc.details.push(d), ..acc })
                                },
                            }
                        },
                    }
                } else {
                    match skip_at(s, p, wt, tag) {
                        Err(f) => (acc, Some(f), p),
                        Ok(q) => status_merge(s, q, end, acc),
                    }
                }
            },
        }
    }
}

/// Appends a repeated list of details.
fn put_details(details: &Vec<Any>, buf: &mut Vec<u8>)
    ensures
        final(buf)@ == old(buf)@ + repeated(details@.map_values(|a: Any| a@), |a: AnyView| detail_field(a)),
{
    let ghost views = details@.map_values(|a: Any| a@);
    let mut i: usize = 0;
    while i < details.len()
        invariant
            i <= details@.len(),
            views == details@.map_values(|a: Any| a@),
            buf@ == old(buf)@ + repeated(views.take(i as int), |a: AnyView| detail_field(a)),
        decreases details@.len() - i,
    {
        let mut body: Vec<u8> = Vec::new();
        details[i].encode_to(&mut body);
        assert(body@ =~= any_bytes(views[i as int]));
        put_delimited(3, body.as_slice(), buf);
        proof {
            lemma_repeated_push(views.take(i as int), views[i as int], |a: AnyView| detail_field(a));
            assert(views.take(i as int).push(views[i as int]) =~= views.take(i + 1));
        }
        i = i + 1;
        assert(buf@ =~= old(buf)@ + repeated(views.take(i as int), |a: AnyView| detail_field(a)));
    }
    assert(views.take(i as int) =~= views);
}

impl Status {
    /// Appends the encoding of this status.
    pub fn encode_to(&self, buf: &mut Vec<u8>)
        ensures
            final(buf)@ == old(buf)@ + status_bytes(self@),
    {
        if self.code != 0 {
            put_uint(1, self.code as u64, buf);
        }
        put_string(2, &self.message, buf);
        put_details(&self.details, buf);
        assert(final(buf)@ =~= old(buf)@ + status_bytes(self@));
    }

    /// Merges the fields of `data` between `pos` and `end` into this status
    /// and returns where the merge stopped.
    #[verifier::loop_isolation(false)]
    pub fn merge_range(&mut self, data: &[u8], pos: usize, end: usize) -> (r: Result<usize, CodecError>)
        requires
            pos <= data@.len(),
        ensures
            ({
                let (v, f, q) = status_merge(data@, pos as nat, end as nat, old(self)@);
                &&& final(self)@ == v
                &&& match r {
                    Ok(p) => f is None && p == q && p <= data@.len(),
                    Err(e) => f == Some(e@),
                }
            }),
    {
        let ghost goal = status_merge(data@, pos as nat, end as nat, old(self)@);
        let mut pos = pos;
        while pos < end && pos < data.len()
            invariant
                pos <= data@.len(),
                status_merge(data@, pos as nat, end as nat, self@) == goal,
            decreases data@.len() - pos,
        {
            proof {
                lemma_field_progress(data@, pos as nat, 0, 0);
            }
            let (tag, wt, p) = match read_key(data, pos) {
                Ok(k) => k,
                Err(e) => {
                    return Err(e);
                },
            };
            proof {
                lemma_field_progress(data@, p as nat, wt, tag as nat);
            }
            if tag == 1 {
                match read_uint(data, p, wt) {
                    Ok((v, q)) => {
                        self.code = v as i32;
                        pos = q;
                    },
                    Err(e) => {
                        return Err(e.located("Status", "code"));
                    },
                }
            } else if tag == 2 {
                match read_string(data, p, wt) {
                    Ok((t, q)) => {
                        self.message = t;
                        pos = q;
                    },
                    Err(e) => {
                        self.message = String::new();
                        return Err(e.located("Status", "message"));
                    },
                }
            } else if tag == 3 {
                let (a, b) = match read_delimited(data, p, wt) {
                    Ok(r) => r,
                    Err(e) => {
                        return Err(e.located("Status", "details"));
                    },
                };
                let mut d = Any::new();
                match d.merge_range(data, a, b) {
                    Ok(q) => {
                        if q != b {
                            return Err(CodecError::DelimitedLengthExceeded.located("Status", "details"));
                        }
                        let ghost before = self@;
                        self.details.push(d);
                        assert(self@.details =~= before.details.push(d@));
                        pos = q;
                    },
                    Err(e) => {
                        return Err(e.located("Status", "details"));
                    },
                }
            } else {
                match skip_unknown(data, p, wt, tag) {
                    Ok(q) => {
                        pos = q;
                    },
                    Err(e) => {
                        return Err(e);
                    },
                }
            }
        }
        Ok(pos)
    }
}

/// A run of encoded details written at `pos` is appended, in order, to the
/// details of the status being merged.
proof fn lemma_details_merge(s: Seq<u8>, pos: nat, end: nat, acc: StatusView, ds: Seq<AnyView>)
    requires
        occurs_at(s, pos, repeated(ds, |a: AnyView| detail_field(a))),
        end == pos + repeated(ds, |a: AnyView| detail_field(a)).len(),
        end <= u64::MAX,
    ensures
        status_merge(s, pos, end, acc) == (StatusView { details: acc.details + ds, ..acc }, None::<WireFault>, end),
    decreases ds.len(),
{
    let f = |a: AnyView| detail_field(a);
    if ds.len() == 0 {
        assert(acc.details + ds =~= acc.details);
    } else {
        let d = ds[0];
        let first = detail_field(d);
        let rest = repeated(ds.drop_first(), f);
        assert(repeated(ds, f) == first + rest);
        lemma_occurs_concat(s, pos, first, rest);
        lemma_delimited_occurs(s, pos, 3, any_bytes(d));
        let a = pos + 1 + crate::wire::varint_bytes(any_bytes(d).len()).len();
        let b = a + any_bytes(d).len();
        assert(occurs_at(s, a, any_bytes(d)));
        lemma_any_merge_bytes(s, a, d);
        let next = StatusView { details: acc.details.push(d), ..acc };
        assert(status_merge(s, pos, end, acc) == status_merge(s, b, end, next));
        lemma_details_merge(s, b, end, next, ds.drop_first());
        assert(acc.details.push(d) + ds.drop_first() =~= acc.details + ds);
    }
}

/// The fields of a status's encoding, written at `pos`, merge into it.
pub proof fn lemma_status_merge_bytes(s: Seq<u8>, pos: nat, st: StatusView)
    requires
        occurs_at(s, pos, status_bytes(st)),
        pos + status_bytes(st).len() <= u64::MAX,
    ensures
        status_merge(s, pos, pos + status_bytes(st).len(), status_default()) == (st, None::<WireFault>, pos + status_bytes(st).len()),
{
    let end = pos + status_bytes(st).len();
    let f1 = int32_field(1, st.code);
    let f2 = string_field(2, st.message);
    let f3 = repeated(st.details, |a: AnyView| detail_field(a));
    lemma_occurs_concat(s, pos, f1 + f2, f3);
    lemma_occurs_concat(s, pos, f1, f2);
    let p1 = pos + f1.len();
    let p2 = p1 + f2.len();
    let v1 = StatusView { code: st.code, ..status_default() };
    assert(status_merge(s, pos, end, status_default()) == status_merge(s, p1, end, v1)) by {
        if st.code != 0 {
            let c = st.code;
            lemma_uint_occurs(s, pos, 1, c as u64);
            assert(((c as u64) as i32) == c) by (bit_vector);
        }
    }
    let v2 = StatusView { message: st.message, ..v1 };
    assert(status_merge(s, p1, end, v1) == status_merge(s, p2, end, v2)) by {
        if st.message.len() > 0 {
            lemma_string_occurs(s, p1, 2, st.message);
        } else {
            assert(st.message =~= Seq::<char>::empty());
        }
    }
    lemma_details_merge(s, p2, end, v2, st.details);
    assert(v2.details + st.details =~= st.details);
}

// ---------------------------------------------------------------------------
// Request
// ---------------------------------------------------------------------------

/// An empty request.
pub open spec fn request_default() -> RequestView {
    RequestView {
        service: Seq::empty(),
        method: Seq::empty(),
        payload: Seq::empty(),
        timeout_nano: 0,
        metadata: Seq::empty(),
    }
}

/// The encoding of one metadata entry, as field 5 of a request.
pub open spec fn metadata_field(kv: (Seq<char>, Seq<char>)) -> Seq<u8> {
    delimited_field(5, key_value_bytes(kv))
}

/// The encoding of a request.
pub open spec fn request_bytes(r: RequestView) -> Seq<u8> {
    string_field(1, r.service) + string_field(2, r.method) + bytes_field(3, r.payload) + int64_field(
        4,
        r.timeout_nano,
    ) + repeated(r.metadata, |kv: (Seq<char>, Seq<char>)| metadata_field(kv))
}

/// Merges the fields between `pos` and `end` into a request. An entry is added
/// only when it decodes whole.
pub open spec fn request_merge(s: Seq<u8>, pos: nat, end: nat, acc: RequestView) -> (RequestView, Option<WireFault>, nat)
    decreases s.len() - pos,
{
    if pos >= end || pos >= s.len() {
        (acc, None, pos)
    } else {
        proof {
            lemma_field_progress(s, pos, 0, 0);
        }
        match key_at(s, pos) {
            Err(f) => (acc, Some(f), pos),
            Ok((tag, wt, p)) => {
                proof {
                    lemma_field_progress(s, p, wt, tag);
                }
                if tag == 1 {
                    match string_at(s, p, wt) {
                        Err(f) => (RequestView { service: Seq::empty(), ..acc }, Some(locate(f, "Request"@, "service"@)), p),
                        Ok((t, q)) => request_merge(s, q, end, RequestView { service: t, ..acc }),
                    }
                } else if tag == 2 {
                    match string_at(s, p, wt) {
                        Err(f) => (RequestView { method: Seq::empty(), ..acc }, Some(locate(f, "Request"@, "method"@)), p),
                        Ok((t, q)) => request_merge(s, q, end, RequestView { method: t, ..acc }),
                    }
                } else if tag == 3 {
                    match bytes_at(s, p, wt) {
                        Err(f) => (acc, Some(locate(f, "Request"@, "payload"@)), p),
                        Ok((b, q)) => request_merge(s, q, end, RequestView { payload: b, ..acc }),
                    }
                } else if tag == 4 {
                    match uint_at(s, p, wt) {
                        Err(f) => (acc, Some(locate(f, "Request"@, "timeout_nano"@)), p),
                        Ok((v, q)) => request_merge(s, q, end, RequestView { timeout_nano: (v as u64) as i64, ..acc }),
                    }
                } else if tag == 5 {
                    match delimited_at(s, p, wt) {
                        Err(f) => (acc, Some(locate(f, "Request"@, "metadata"@)), p),
                        Ok((a, b)) => {
                            let (kv, f, q) = key_value_merge(s, a, b, (Seq::empty(), Seq::empty()));
                            match f {
                                Some(f) => (acc, Some(locate(f, "Request"@, "metadata"@)), q),
                                None => if q != b {
                                    (acc, Some(locate(WireFault::DelimitedLengthExceeded, "Request"@, "metadata"@)), q)
                                } else {
                                    request_merge(s, q, end, RequestView { metadata: acc.metadata.push(kv), ..acc })
                                },
                            }
                        },
                    }
                } else {
                    match skip_at(s, p, wt, tag) {
                        Err(f) => (acc, Some(f), p),
                        Ok(q) => request_merge(s, q, end, acc),
                    }
                }
            },
        }
    }
}

/// Appends the metadata entries.
fn put_metadata(metadata: &Vec<KeyValue>, buf: &mut Vec<u8>)
    ensures
        final(buf)@ == old(buf)@ + repeated(
            metadata@.map_values(|kv: KeyValue| kv@),
            |kv: (Seq<char>, Seq<char>)| metadata_field(kv),
        ),
{
    let ghost views = metadata@.map_values(|kv: KeyValue| kv@);
    let mut i: usize = 0;
    while i < metadata.len()
        invariant
            i <= metadata@.len(),
            views == metadata@.map_values(|kv: KeyValue| kv@),
            buf@ == old(buf)@ + repeated(views.take(i as int), |kv: (Seq<char>, Seq<char>)| metadata_field(kv)),
        decreases metadata@.len() - i,
    {
        let mut body: Vec<u8> = Vec::new();
        metadata[i].encode_to(&mut body);
        assert(body@ =~= key_value_bytes(views[i as int]));
        put_delimited(5, body.as_slice(), buf);
        proof {
            lemma_repeated_push(
                views.take(i as int),
                views[i as int],
                |kv: (Seq<char>, Seq<char>)| metadata_field(kv),
            );
            assert(views.take(i as int).push(views[i as int]) =~= views.take(i + 1));
        }
        i = i + 1;
        assert(buf@ =~= old(buf)@ + repeated(views.take(i as int), |kv: (Seq<char>, Seq<char>)| metadata_field(kv)));
    }
    assert(views.take(i as int) =~= views);
}

impl Request {
    /// Appends the encoding of this request.
    pub fn encode_to(&self, buf: &mut Vec<u8>)
        ensures
            final(buf)@ == old(buf)@ + request_bytes(self@),
    {
        put_string(1, &self.service, buf);
        put_string(2, &self.method, buf);
        put_bytes(3, &self.payload, buf);
        if self.timeout_nano != 0 {
            put_uint(4, self.timeout_nano as u64, buf);
        }
        put_metadata(&self.metadata, buf);
        assert(final(buf)@ =~= old(buf)@ + request_bytes(self@));
    }

    /// Merges the fields of `data` between `pos` and `end` into this request
    /// and returns where the merge stopped.
    #[verifier::loop_isolation(false)]
    pub fn merge_range(&mut self, data: &[u8], pos: usize, end: usize) -> (r: Result<usize, CodecError>)
        requires
            pos <= data@.len(),
        ensures
            ({
                let (v, f, q) = request_merge(data@, pos as nat, end as nat, old(self)@);
                &&& final(self)@ == v
                &&& match r {
                    Ok(p) => f is None && p == q && p <= data@.len(),
                    Err(e) => f == Some(e@),
                }
            }),
    {
        let ghost goal = request_merge(data@, pos as nat, end as nat, old(self)@);
        let mut pos = pos;
        while pos < end && pos < data.len()
            invariant
                pos <= data@.len(),
                request_merge(data@, pos as nat, end as nat, self@) == goal,
            decreases data@.len() - pos,
        {
            proof {
                lemma_field_progress(data@, pos as nat, 0, 0);
            }
            let (tag, wt, p) = match read_key(data, pos) {
                Ok(k) => k,
                Err(e) => {
                    return Err(e);
                },
            };
            proof {
                lemma_field_progress(data@, p as nat, wt, tag as nat);
            }
            if tag == 1 {
                match read_string(data, p, wt) {
                    Ok((t, q)) => {
                        self.service = t;
                        pos = q;
                    },
                    Err(e) => {
                        self.service = String::new();
                        return Err(e.located("Request", "service"));
                    },
                }
            } else if tag == 2 {
                match read_string(data, p, wt) {
                    Ok((t, q)) => {
                        self.method = t;
                        pos = q;
                    },
                    Err(e) => {
                        self.method = String::new();
                        return Err(e.located("Request", "method"));
                    },
                }
            } else if tag == 3 {
                match read_bytes(data, p, wt) {
                    Ok((b, q)) => {
                        self.payload = b;
                        pos = q;
                    },
                    Err(e) => {
                        return Err(e.located("Request", "payload"));
                    },
                }
            } else if tag == 4 {
                match read_uint(data, p, wt) {
                    Ok((v, q)) => {
                        self.timeout_nano = v as i64;
                        pos = q;
                    },
                    Err(e) => {
                        return Err(e.located("Request", "timeout_nano"));
                    },
                }
            } else if tag == 5 {
                let (a, b) = match read_delimited(data, p, wt) {
                    Ok(r) => r,
                    Err(e) => {
                        return Err(e.located("Request", "metadata"));
                    },
                };
                let mut kv = KeyValue { key: String::new(), value: String::new() };
                match kv.merge_range(data, a, b) {
                    Ok(q) => {
                        if q != b {
                            return Err(CodecError::DelimitedLengthExceeded.located("Request", "metadata"));
                        }
                        let ghost before = self@;
                        self.metadata.push(kv);
                        assert(self@.metadata =~= before.metadata.push(kv@));
                        pos = q;
                    },
                    Err(e) => {
                        return Err(e.located("Request", "metadata"));
                    },
                }
            } else {
                match skip_unknown(data, p, wt, tag) {
                    Ok(q) => {
                        pos = q;
                    },
                    Err(e) => {
                        return Err(e);
                    },
                }
            }
        }
        Ok(pos)
    }
}

/// A run of encoded entries written at `pos` is appended, in order, to the
/// metadata of the request being merged.
proof fn lemma_metadata_merge(
    s: Seq<u8>,
    pos: nat,
    end: nat,
    acc: RequestView,
    m: Seq<(Seq<char>, Seq<char>)>,
)
    requires
        occurs_at(s, pos, repeated(m, |kv: (Seq<char>, Seq<char>)| metadata_field(kv))),
        end == pos + repeated(m, |kv: (Seq<char>, Seq<char>)| metadata_field(kv)).len(),
        end <= u64::MAX,
    ensures
        request_merge(s, pos, end, acc) == (RequestView { metadata: acc.metadata + m, ..acc }, None::<WireFault>, end),
    decreases m.len(),
{
    let f = |kv: (Seq<char>, Seq<char>)| metadata_field(kv);
    if m.len() == 0 {
        assert(acc.metadata + m =~= acc.metadata);
    } else {
        let kv = m[0];
        let first = metadata_field(kv);
        let rest = repeated(m.drop_first(), f);
        assert(repeated(m, f) == first + rest);
        lemma_occurs_concat(s, pos, first, rest);
        lemma_delimited_occurs(s, pos, 5, key_value_bytes(kv));
        let a = pos + 1 + crate::wire::varint_bytes(key_value_bytes(kv).len()).len();
        let b = a + key_value_bytes(kv).len();
        assert(occurs_at(s, a, key_value_bytes(kv)));
        lemma_key_value_merge_bytes(s, a, kv);
        let next = RequestView { metadata: acc.metadata.push(kv), ..acc };
        assert(request_merge(s, pos, end, acc) == request_merge(s, b, end, next));
        lemma_metadata_merge(s, b, end, next, m.drop_first());
        assert(acc.metadata.push(kv) + m.drop_first() =~= acc.metadata + m);
    }
}

/// Decoding the encoding of a request gives the request back.
#[verifier::rlimit(60)]
#[verifier::spinoff_prover]
pub proof fn lemma_request_roundtrip(r: RequestView)
    requires
        request_bytes(r).len() <= u64::MAX,
    ensures
        request_merge(request_bytes(r), 0, request_bytes(r).len(), request_default()) == (r, None::<WireFault>, request_bytes(r).len()),
{
    let s = request_bytes(r);
    let end = s.len();
    let f1 = string_field(1, r.service);
    let f2 = string_field(2, r.method);
    let f3 = bytes_field(3, r.payload);
    let f4 = int64_field(4, r.timeout_nano);
    let f5 = repeated(r.metadata, |kv: (Seq<char>, Seq<char>)| metadata_field(kv));
    assert(occurs_at(s, 0, s)) by {
        assert(s.subrange(0, s.len() as int) =~= s);
    }
    lemma_occurs_concat(s, 0, f1 + f2 + f3 + f4, f5);
    lemma_occurs_concat(s, 0, f1 + f2 + f3, f4);
    lemma_occurs_concat(s, 0, f1 + f2, f3);
    lemma_occurs_concat(s, 0, f1, f2);
    let p1 = f1.len();
    let p2 = p1 + f2.len();
    let p3 = p2 + f3.len();
    let p4 = p3 + f4.len();
    let v1 = RequestView { service: r.service, ..request_default() };
    assert(request_merge(s, 0, end, request_default()) == request_merge(s, p1, end, v1)) by {
        if r.service.len() > 0 {
            lemma_string_occurs(s, 0, 1, r.service);
        } else {
            assert(r.service =~= Seq::<char>::empty());
        }
    }
    let v2 = RequestView { method: r.method, ..v1 };
    assert(request_merge(s, p1, end, v1) == request_merge(s, p2, end, v2)) by {
        if r.method.len() > 0 {
            lemma_string_occurs(s, p1, 2, r.method);
        } else {
            assert(r.method =~= Seq::<char>::empty());
        }
    }
    let v3 = RequestView { payload: r.payload, ..v2 };
    assert(request_merge(s, p2, end, v2) == request_merge(s, p3, end, v3)) by {
        if r.payload.len() > 0 {
            lemma_bytes_occurs(s, p2, 3, r.payload);
        } else {
            assert(r.payload =~= Seq::<u8>::empty());
        }
    }
    let v4 = RequestView { timeout_nano: r.timeout_nano, ..v3 };
    assert(request_merge(s, p3, end, v3) == request_merge(s, p4, end, v4)) by {
        if r.timeout_nano != 0 {
            let t = r.timeout_nano;
            lemma_uint_occurs(s, p3, 4, t as u64);
            assert(((t as u64) as i64) == t) by (bit_vector);
        }
    }
    lemma_metadata_merge(s, p4, end, v4, r.metadata);
    assert(v4.metadata + r.metadata =~= r.metadata);
}

// ---------------------------------------------------------------------------
// Response
// ---------------------------------------------------------------------------

/// An empty response.
pub open spec fn response_default() -> ResponseView {
    ResponseView { status: None, payload: Seq::empty() }
}

/// The encoding of a response.
pub open spec fn response_bytes(r: ResponseView) -> Seq<u8> {
    status_part(r.status) + bytes_field(2, r.payload)
}

/// The status field of a response: omitted when there is no status.
pub open spec fn status_part(status: Option<StatusView>) -> Seq<u8> {
    match status {
        Some(st) => delimited_field(1, status_bytes(st)),
        None => Seq::empty(),
    }
}

/// Merges the fields between `pos` and `end` into a response. A status field
/// merges into the status already present, or into an `OK` one, and leaves the
/// status present even when it fails to read.
pub open spec fn response_merge(s: Seq<u8>, pos: nat, end: nat, acc: ResponseView) -> (ResponseView, Option<WireFault>, nat)
    decreases s.len() - pos,
{
    if pos >= end || pos >= s.len() {
        (acc, None, pos)
    } else {
        proof {
            lemma_field_progress(s, pos, 0, 0);
        }
        match key_at(s, pos) {
            Err(f) => (acc, Some(f), pos),
            Ok((tag, wt, p)) => {
                proof {
                    lemma_field_progress(s, p, wt, tag);
                }
                if tag == 1 {
                    let base = match acc.status {
                        Some(st) => st,
                        None => status_default(),
                    };
                    match delimited_at(s, p, wt) {
                        Err(f) => (ResponseView { status: Some(base), ..acc }, Some(locate(f, "Response"@, "status"@)), p),
                        Ok((a, b)) => {
                            let (st, f, q) = status_merge(s, a, b, base);
                            match f {
                                Some(f) => (ResponseView { status: Some(st), ..acc }, Some(locate(f, "Response"@, "status"@)), q),
                                None => if q != b {
                                    (
                                        ResponseView { status: Some(st), ..acc },
                                        Some(locate(WireFault::DelimitedLengthExceeded, "Response"@, "status"@)),
                                        q,
                                    )
                                } else {
                                    response_merge(s, q, end, ResponseView { status: Some(st), ..acc })
                                },
                            }
                        },
                    }
                } else if tag == 2 {
                    match bytes_at(s, p, wt) {
                        Err(f) => (acc, Some(locate(f, "Response"@, "payload"@)), p),
                        Ok((b, q)) => response_merge(s, q, end, ResponseView { payload: b, ..acc }),
                    }
                } else {
                    match skip_at(s, p, wt, tag) {
                        Err(f) => (acc, Some(f), p),
                        Ok(q) => response_merge(s, q, end, acc),
                    }
                }
            },
        }
    }
}

impl Response {
    /// Appends the encoding of this response.
    pub fn encode_to(&self, buf: &mut Vec<u8>)
        ensures
            final(buf)@ == old(buf)@ + response_bytes(self@),
    {
        match &self.status {
            Some(st) => {
                let mut body: Vec<u8> = Vec::new();
                st.encode_to(&mut body);
                assert(body@ =~= status_bytes(st@));
                put_delimited(1, body.as_slice(), buf);
            },
            None => {},
        }
        put_bytes(2, &self.payload, buf);
        assert(final(buf)@ =~= old(buf)@ + response_bytes(self@));
    }

    /// Merges the fields of `data` between `pos` and `end` into this response
    /// and returns where the merge stopped.
    #[verifier::loop_isolation(false)]
    pub fn merge_range(&mut self, data: &[u8], pos: usize, end: usize) -> (r: Result<usize, CodecError>)
        requires
            pos <= data@.len(),
        ensures
            ({
                let (v, f, q) = response_merge(data@, pos as nat, end as nat, old(self)@);
                &&& final(self)@ == v
                &&& match r {
                    Ok(p) => f is None && p == q && p <= data@.len(),
                    Err(e) => f == Some(e@),
                }
            }),
    {
        let ghost goal = response_merge(data@, pos as nat, end as nat, old(self)@);
        let mut pos = pos;
        while pos < end && pos < data.len()
            invariant
                pos <= data@.len(),
                response_merge(data@, pos as nat, end as nat, self@) == goal,
            decreases data@.len() - pos,
        {
            proof {
                lemma_field_progress(data@, pos as nat, 0, 0);
            }
            let (tag, wt, p) = match read_key(data, pos) {
                Ok(k) => k,
                Err(e) => {
                    return Err(e);
                },
            };
            proof {
                lemma_field_progress(data@, p as nat, wt, tag as nat);
            }
            if tag == 1 {
                let mut current: Option<Status> = None;
                std::mem::swap(&mut current, &mut self.status);
                let mut st = match current {
                    Some(st) => st,
                    None => Status::new(),
                };
                match read_delimited(data, p, wt) {
                    Err(e) => {
                        self.status = Some(st);
                        return Err(e.located("Response", "status"));
                    },
                    Ok((a, b)) => {
                        match st.merge_range(data, a, b) {
                            Err(e) => {
                                self.status = Some(st);
                                return Err(e.located("Response", "status"));
                            },
                            Ok(q) => {
                                self.status = Some(st);
                                if q != b {
                                    return Err(CodecError::DelimitedLengthExceeded.located("Response", "status"));
                                }
                                pos = q;
                            },
                        }
                    },
                }
            } else if tag == 2 {
                match read_bytes(data, p, wt) {
                    Ok((b, q)) => {
                        self.payload = b;
                        pos = q;
                    },
                    Err(e) => {
                        return Err(e.located("Response", "payload"));
                    },
                }
            } else {
                match skip_unknown(data, p, wt, tag) {
                    Ok(q) => {
                        pos = q;
                    },
                    Err(e) => {
                        return Err(e);
                    },
                }
            }
        }
        Ok(pos)
    }
}

/// Decoding the encoding of a response gives the response back.
pub proof fn lemma_response_roundtrip(r: ResponseView)
    requires
        response_bytes(r).len() <= u64::MAX,
    ensures
        response_merge(response_bytes(r), 0, response_bytes(r).len(), response_default()) == (r, None::<WireFault>, response_bytes(r).len()),
{
    let s = response_bytes(r);
    let end = s.len();
    let f1 = status_part(r.status);
    let f2 = bytes_field(2, r.payload);
    assert(occurs_at(s, 0, s)) by {
        assert(s.subrange(0, s.len() as int) =~= s);
    }
    lemma_occurs_concat(s, 0, f1, f2);
    let p1 = f1.len();
    let v1 = ResponseView { status: r.status, ..response_default() };
    assert(response_merge(s, 0, end, response_default()) == response_merge(s, p1, end, v1)) by {
        match r.status {
            Some(st) => {
                lemma_delimited_occurs(s, 0, 1, status_bytes(st));
                let a = 1 + crate::wire::varint_bytes(status_bytes(st).len()).len();
                assert(occurs_at(s, a, status_bytes(st)));
                lemma_status_merge_bytes(s, a, st);
            },
            None => {},
        }
    }
    if r.payload.len() > 0 {
        lemma_bytes_occurs(s, p1, 2, r.payload);
        assert(response_merge(s, end, end, r) == (r, None::<WireFault>, end));
    } else {
        assert(r.payload =~= Seq::<u8>::empty());
    }
}

// ---------------------------------------------------------------------------
// Defaults, builders and the codec
// ---------------------------------------------------------------------------

impl Default for KeyValue {
    /// An entry with an empty key and value.
    fn default() -> (kv: Self)
        ensures
            kv@ == (Seq::<char>::empty(), Seq::<char>::empty()),
    {
        KeyValue { key: String::new(), value: String::new() }
    }
}

impl Default for Any {
    /// An `Any` with an empty type URL and value.
    fn default() -> (a: Self)
        ensures
            a@ == any_default(),
    {
        Any::new()
    }
}

impl Default for Status {
    /// An `OK` status with an empty message and no details.
    fn default() -> (st: Self)
        ensures
            st@ == status_default(),
    {
        Status::new()
    }
}

impl Default for Request {
    /// An empty request.
    fn default() -> (r: Self)
        ensures
            r@ == request_default(),
    {
        let r = Request {
            service: String::new(),
            method: String::new(),
            payload: Vec::new(),
            timeout_nano: 0,
            metadata: Vec::new(),
        };
        assert(r@.payload =~= Seq::<u8>::empty());
        assert(r@.metadata =~= Seq::<(Seq<char>, Seq<char>)>::empty());
        r
    }
}

impl Default for Response {
    /// A response without status or payload.
    fn default() -> (r: Self)
        ensures
            r@ == response_default(),
    {
        let r = Response { status: None, payload: Vec::new() };
        assert(r@.payload =~= Seq::<u8>::empty());
        r
    }
}

impl RequestInit for Request {
    fn init_request(service: String, method: String, timeout_nano: i64, metadata: Vec<KeyValue>) -> (r: Self)
        ensures
            r@ == (RequestView {
                service: service@,
                method: method@,
                payload: Seq::empty(),
                timeout_nano,
                metadata: metadata@.map_values(|kv: KeyValue| kv@),
            }),
    {
        let r = Request { service, method, payload: Vec::new(), timeout_nano, metadata };
        assert(r@.payload =~= Seq::<u8>::empty());
        r
    }

    fn set_payload(&mut self, payload: Vec<u8>)
        ensures
            final(self)@ == (RequestView { payload: payload@, ..old(self)@ }),
    {
        self.payload = payload;
    }
}

impl ResponseInit for Response {
    fn init_status(status: Status) -> (r: Self)
        ensures
            r@ == (ResponseView { status: Some(status@), payload: Seq::empty() }),
    {
        let r = Response { status: Some(status), payload: Vec::new() };
        assert(r@.payload =~= Seq::<u8>::empty());
        r
    }

    fn set_payload(&mut self, payload: Vec<u8>)
        ensures
            final(self)@ == (ResponseView { payload: payload@, ..old(self)@ }),
    {
        self.payload = payload;
    }

    fn set_status(&mut self, status: Status)
        ensures
            final(self)@ == (ResponseView { status: Some(status@), ..old(self)@ }),
    {
        self.status = Some(status);
    }

    fn non_ok(&self) -> (r: Option<Status>)
        ensures
            match self@.status {
                Some(s) => if s.code != 0 {
                    r matches Some(t) && t@ == s
                } else {
                    r is None
                },
                None => r is None,
            },
    {
        match &self.status {
            Some(s) => {
                if s.code != 0 {
                    Some(s.clone())
                } else {
                    None
                }
            },
            None => None,
        }
    }
}

impl Codec for KeyValue {
    open spec fn spec_encode(v: (Seq<char>, Seq<char>)) -> Seq<u8> {
        key_value_bytes(v)
    }

    open spec fn spec_merge(v: (Seq<char>, Seq<char>), bytes: Seq<u8>) -> ((Seq<char>, Seq<char>), Option<WireFault>) {
        let (w, f, q) = key_value_merge(bytes, 0, bytes.len(), v);
        (w, f)
    }

    open spec fn spec_default() -> (Seq<char>, Seq<char>) {
        (Seq::empty(), Seq::empty())
    }

    fn size(&self) -> (n: u32) {
        let mut b: Vec<u8> = Vec::new();
        self.encode_to(&mut b);
        assert(b@ =~= key_value_bytes(self@));
        b.len() as u32
    }

    fn encode(&self) -> (r: Result<Vec<u8>, CodecError>) {
        let mut b: Vec<u8> = Vec::new();
        self.encode_to(&mut b);
        assert(b@ =~= key_value_bytes(self@));
        Ok(b)
    }

    fn decode(buf: &[u8]) -> (r: Result<Self, CodecError>) {
        let mut m = KeyValue::default();
        match m.merge_range(buf, 0, buf.len()) {
            Ok(_) => Ok(m),
            Err(e) => Err(e),
        }
    }

    fn merge(&mut self, buf: &[u8]) -> (r: Result<(), CodecError>) {
        match self.merge_range(buf, 0, buf.len()) {
            Ok(_) => Ok(()),
            Err(e) => Err(e),
        }
    }
}

impl Codec for Any {
    open spec fn spec_encode(v: AnyView) -> Seq<u8> {
        any_bytes(v)
    }

    open spec fn spec_merge(v: AnyView, bytes: Seq<u8>) -> (AnyView, Option<WireFault>) {
        let (w, f, q) = any_merge(bytes, 0, bytes.len(), v);
        (w, f)
    }

    open spec fn spec_default() -> AnyView {
        any_default()
    }

    fn size(&self) -> (n: u32) {
        let mut b: Vec<u8> = Vec::new();
        self.encode_to(&mut b);
        assert(b@ =~= any_bytes(self@));
        b.len() as u32
    }

    fn encode(&self) -> (r: Result<Vec<u8>, CodecError>) {
        let mut b: Vec<u8> = Vec::new();
        self.encode_to(&mut b);
        assert(b@ =~= any_bytes(self@));
        Ok(b)
    }

    fn decode(buf: &[u8]) -> (r: Result<Self, CodecError>) {
        let mut m = Any::new();
        match m.merge_range(buf, 0, buf.len()) {
            Ok(_) => Ok(m),
            Err(e) => Err(e),
        }
    }

    fn merge(&mut self, buf: &[u8]) -> (r: Result<(), CodecError>) {
        match self.merge_range(buf, 0, buf.len()) {
            Ok(_) => Ok(()),
            Err(e) => Err(e),
        }
    }
}

impl Codec for Status {
    open spec fn spec_encode(v: StatusView) -> Seq<u8> {
        status_bytes(v)
    }

    open spec fn spec_merge(v: StatusView, bytes: Seq<u8>) -> (StatusView, Option<WireFault>) {
        let (w, f, q) = status_merge(bytes, 0, bytes.len(), v);
        (w, f)
    }

    open spec fn spec_default() -> StatusView {
        status_default()
    }

    fn size(&self) -> (n: u32) {
        let mut b: Vec<u8> = Vec::new();
        self.encode_to(&mut b);
        assert(b@ =~= status_bytes(self@));
        b.len() as u32
    }

    fn encode(&self) -> (r: Result<Vec<u8>, CodecError>) {
        let mut b: Vec<u8> = Vec::new();
        self.encode_to(&mut b);
        assert(b@ =~= status_bytes(self@));
        Ok(b)
    }

    fn decode(buf: &[u8]) -> (r: Result<Self, CodecError>) {
        let mut m = Status::new();
        match m.merge_range(buf, 0, buf.len()) {
            Ok(_) => Ok(m),
            Err(e) => Err(e),
        }
    }

    fn merge(&mut self, buf: &[u8]) -> (r: Result<(), CodecError>) {
        match self.merge_range(buf, 0, buf.len()) {
            Ok(_) => Ok(()),
            Err(e) => Err(e),
        }
    }
}

impl Codec for Request {
    open spec fn spec_encode(v: RequestView) -> Seq<u8> {
        request_bytes(v)
    }

    open spec fn spec_merge(v: RequestView, bytes: Seq<u8>) -> (RequestView, Option<WireFault>) {
        let (w, f, q) = request_merge(bytes, 0, bytes.len(), v);
        (w, f)
    }

    open spec fn spec_default() -> RequestView {
        request_default()
    }

    fn size(&self) -> (n: u32) {
        let mut b: Vec<u8> = Vec::new();
        self.encode_to(&mut b);
        assert(b@ =~= request_bytes(self@));
        b.len() as u32
    }

    fn encode(&self) -> (r: Result<Vec<u8>, CodecError>) {
        let mut b: Vec<u8> = Vec::new();
        self.encode_to(&mut b);
        assert(b@ =~= request_bytes(self@));
        Ok(b)
    }

    fn decode(buf: &[u8]) -> (r: Result<Self, CodecError>) {
        let mut m = Request::default();
        match m.merge_range(buf, 0, buf.len()) {
            Ok(_) => Ok(m),
            Err(e) => Err(e),
        }
    }

    fn merge(&mut self, buf: &[u8]) -> (r: Result<(), CodecError>) {
        match self.merge_range(buf, 0, buf.len()) {
            Ok(_) => Ok(()),
            Err(e) => Err(e),
        }
    }
}

impl Codec for Response {
    open spec fn spec_encode(v: ResponseView) -> Seq<u8> {
        response_bytes(v)
    }

    open spec fn spec_merge(v: ResponseView, bytes: Seq<u8>) -> (ResponseView, Option<WireFault>) {
        let (w, f, q) = response_merge(bytes, 0, bytes.len(), v);
        (w, f)
    }

    open spec fn spec_default() -> ResponseView {
        response_default()
    }

    fn size(&self) -> (n: u32) {
        let mut b: Vec<u8> = Vec::new();
        self.encode_to(&mut b);
        assert(b@ =~= response_bytes(self@));
        b.len() as u32
    }

    fn encode(&self) -> (r: Result<Vec<u8>, CodecError>) {
        let mut b: Vec<u8> = Vec::new();
        self.encode_to(&mut b);
        assert(b@ =~= response_bytes(self@));
        Ok(b)
    }

    fn decode(buf: &[u8]) -> (r: Result<Self, CodecError>) {
        let mut m = Response::default();
        match m.merge_range(buf, 0, buf.len()) {
            Ok(_) => Ok(m),
            Err(e) => Err(e),
        }
    }

    fn merge(&mut self, buf: &[u8]) -> (r: Result<(), CodecError>) {
        match self.merge_range(buf, 0, buf.len()) {
            Ok(_) => Ok(()),
            Err(e) => Err(e),
        }
    }
}

// ---------------------------------------------------------------------------
// Wire layout
// ---------------------------------------------------------------------------

/// A length-delimited field under the one-byte key `key`: the key, the body's
/// length as a varint, then the body.
pub open spec fn keyed_delimited(key: u8, body: Seq<u8>) -> Seq<u8> {
    seq![key] + varint_bytes(body.len()) + body
}

/// A varint field under the one-byte key `key`.
pub open spec fn keyed_varint(key: u8, v: nat) -> Seq<u8> {
    seq![key] + varint_bytes(v)
}

/// The keys of the fields these messages use are single bytes:
/// `tag * 8 + wire type`.
proof fn lemma_field_keys()
    ensures
        key_bytes(1, WIRE_VARINT as nat) == seq![0x08u8],
        key_bytes(1, WIRE_DELIMITED as nat) == seq![0x0au8],
        key_bytes(2, WIRE_DELIMITED as nat) == seq![0x12u8],
        key_bytes(3, WIRE_DELIMITED as nat) == seq![0x1au8],
        key_bytes(4, WIRE_VARINT as nat) == seq![0x20u8],
        key_bytes(5, WIRE_DELIMITED as nat) == seq![0x2au8],
{
    assert(varint_bytes(8) =~= seq![0x08u8]);
    assert(varint_bytes(10) =~= seq![0x0au8]);
    assert(varint_bytes(18) =~= seq![0x12u8]);
    assert(varint_bytes(26) =~= seq![0x1au8]);
    assert(varint_bytes(32) =~= seq![0x20u8]);
    assert(varint_bytes(42) =~= seq![0x2au8]);
}

/// The encoding of a metadata entry on the wire: the key under key byte `0x0a`
/// (field 1, length-delimited) unless empty, then the value under key byte
/// `0x12` (field 2, length-delimited) unless empty.
pub proof fn lemma_key_value_layout(kv: (Seq<char>, Seq<char>))
    ensures
        <KeyValue as Codec>::spec_encode(kv) == (if kv.0.len() == 0 {
            Seq::empty()
        } else {
            keyed_delimited(0x0a, encode_utf8(kv.0))
        }) + (if kv.1.len() == 0 {
            Seq::empty()
        } else {
            keyed_delimited(0x12, encode_utf8(kv.1))
        }),
{
    lemma_field_keys();
}

/// The encoding of an `Any` on the wire: the type URL under key byte `0x0a`
/// (field 1, length-delimited) unless empty, then the value under key byte
/// `0x12` (field 2, length-delimited) unless empty.
pub proof fn lemma_any_layout(a: AnyView)
    ensures
        <Any as Codec>::spec_encode(a) == (if a.type_url.len() == 0 {
            Seq::empty()
        } else {
            keyed_delimited(0x0a, encode_utf8(a.type_url))
        }) + (if a.value.len() == 0 {
            Seq::empty()
        } else {
            keyed_delimited(0x12, a.value)
        }),
{
    lemma_field_keys();
}

/// The encoding of a status on the wire, as `google.rpc.Status` lays it out:
/// the code as a varint under key byte `0x08` (field 1) unless it is zero, the
/// message under key byte `0x12` (field 2, length-delimited) unless empty, then
/// each detail, in order, under key byte `0x1a` (field 3, length-delimited).
pub proof fn lemma_status_layout(st: StatusView)
    ensures
        <Status as Codec>::spec_encode(st) == (if st.code == 0 {
            Seq::empty()
        } else {
            keyed_varint(0x08, (st.code as u64) as nat)
        }) + (if st.message.len() == 0 {
            Seq::empty()
        } else {
            keyed_delimited(0x12, encode_utf8(st.message))
        }) + repeated(st.details, |a: AnyView| keyed_delimited(0x1a, <Any as Codec>::spec_encode(a))),
{
    lemma_field_keys();
    assert((|a: AnyView| detail_field(a)) =~= (|a: AnyView| keyed_delimited(0x1a, <Any as Codec>::spec_encode(a))));
}

/// The encoding of a request on the wire: the service under key byte `0x0a`
/// (field 1), the method under `0x12` (field 2) and the payload under `0x1a`
/// (field 3), each length-delimited and left out when empty; the timeout as a
/// varint under `0x20` (field 4) unless zero; then each metadata entry, in
/// order, under `0x2a` (field 5, length-delimited).
pub proof fn lemma_request_layout(r: RequestView)
    ensures
        <Request as Codec>::spec_encode(r) == (if r.service.len() == 0 {
            Seq::empty()
        } else {
            keyed_delimited(0x0a, encode_utf8(r.service))
        }) + (if r.method.len() == 0 {
            Seq::empty()
        } else {
            keyed_delimited(0x12, encode_utf8(r.method))
        }) + (if r.payload.len() == 0 {
            Seq::empty()
        } else {
            keyed_delimited(0x1a, r.payload)
        }) + (if r.timeout_nano == 0 {
            Seq::empty()
        } else {
            keyed_varint(0x20, (r.timeout_nano as u64) as nat)
        }) + repeated(
            r.metadata,
            |kv: (Seq<char>, Seq<char>)| keyed_delimited(0x2a, <KeyValue as Codec>::spec_encode(kv)),
        ),
{
    lemma_field_keys();
    assert((|kv: (Seq<char>, Seq<char>)| metadata_field(kv)) =~= (|kv: (Seq<char>, Seq<char>)| keyed_delimited(
        0x2a,
        <KeyValue as Codec>::spec_encode(kv),
    )));
}

/// The encoding of a response on the wire: the status, when there is one,
/// under key byte `0x0a` (field 1, length-delimited), then the payload under
/// key byte `0x12` (field 2, length-delimited) unless empty.
pub proof fn lemma_response_layout(r: ResponseView)
    ensures
        <Response as Codec>::spec_encode(r) == (match r.status {
            Some(st) => keyed_delimited(0x0a, <Status as Codec>::spec_encode(st)),
            None => Seq::empty(),
        }) + (if r.payload.len() == 0 {
            Seq::empty()
        } else {
            keyed_delimited(0x12, r.payload)
        }),
{
    lemma_field_keys();
}

// ---------------------------------------------------------------------------
// Laws
// ---------------------------------------------------------------------------

/// Decoding the encoding of a metadata entry gives the entry back.
pub proof fn lemma_key_value_decode_encode(kv: (Seq<char>, Seq<char>))
    requires
        key_value_bytes(kv).len() <= u64::MAX,
    ensures
        <KeyValue as Codec>::spec_merge(<KeyValue as Codec>::spec_default(), <KeyValue as Codec>::spec_encode(kv))
            == (kv, None::<WireFault>),
{
    let s = key_value_bytes(kv);
    assert(s.subrange(0, s.len() as int) =~= s);
    lemma_key_value_merge_bytes(s, 0, kv);
}

/// Decoding the encoding of an `Any` gives it back.
pub proof fn lemma_any_decode_encode(a: AnyView)
    requires
        any_bytes(a).len() <= u64::MAX,
    ensures
        <Any as Codec>::spec_merge(<Any as Codec>::spec_default(), <Any as Codec>::spec_encode(a)) == (a, None::<WireFault>),
{
    let s = any_bytes(a);
    assert(s.subrange(0, s.len() as int) =~= s);
    lemma_any_merge_bytes(s, 0, a);
}

/// Decoding the encoding of a status gives it back.
pub proof fn lemma_status_decode_encode(st: StatusView)
    requires
        status_bytes(st).len() <= u64::MAX,
    ensures
        <Status as Codec>::spec_merge(<Status as Codec>::spec_default(), <Status as Codec>::spec_encode(st))
            == (st, None::<WireFault>),
{
    let s = status_bytes(st);
    assert(s.subrange(0, s.len() as int) =~= s);
    lemma_status_merge_bytes(s, 0, st);
}

/// Decoding the encoding of a request gives it back.
pub proof fn lemma_request_decode_encode(r: RequestView)
    requires
        request_bytes(r).len() <= u64::MAX,
    ensures
        <Request as Codec>::spec_merge(<Request as Codec>::spec_default(), <Request as Codec>::spec_encode(r))
            == (r, None::<WireFault>),
{
    lemma_request_roundtrip(r);
}

/// Decoding the encoding of a response gives it back.
pub proof fn lemma_response_decode_encode(r: ResponseView)
    requires
        response_bytes(r).len() <= u64::MAX,
    ensures
        <Response as Codec>::spec_merge(<Response as Codec>::spec_default(), <Response as Codec>::spec_encode(r))
            == (r, None::<WireFault>),
{
    lemma_response_roundtrip(r);
}

} // verus!
