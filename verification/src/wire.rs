//! Protobuf wire-format primitives: base-128 varints, field keys, and the
//! reading and writing of single fields at a position in a buffer.

use vstd::arithmetic::div_mod::lemma_div_denominator;
use vstd::arithmetic::power::{lemma_pow_positive, pow};
use vstd::arithmetic::power2::{lemma2_to64, lemma_pow2_adds, pow2};
use crate::common::strip_prefix;
use crate::text::{decimal, u64_text};
use vstd::prelude::*;
use vstd::slice::slice_subrange;
use vstd::string::*;
use vstd::utf8::{decode_utf8, encode_utf8, valid_utf8};

verus! {

// ---------------------------------------------------------------------------
// Varints
// ---------------------------------------------------------------------------

/// The base-128 encoding of `v`: seven bits per byte, least significant group
/// first, the high bit set on every byte but the last.
pub open spec fn varint_bytes(v: nat) -> Seq<u8>
    decreases v,
{
    if v < 128 {
        seq![v as u8]
    } else {
        seq![(v % 128 + 128) as u8] + varint_bytes(v / 128)
    }
}

/// Reads a varint of at most `budget` bytes from the front of `s`: its value and
/// how many bytes it took. When only one byte of the budget is left, that byte
/// must end the varint and hold at most the value 1 (the 64th bit).
pub open spec fn varint_parse(s: Seq<u8>, budget: nat) -> Option<(nat, nat)>
    decreases budget,
{
    if budget == 0 || s.len() == 0 {
        None
    } else if s[0] < 128 {
        if budget == 1 && s[0] >= 2 {
            None
        } else {
            Some((s[0] as nat, 1nat))
        }
    } else {
        match varint_parse(s.drop_first(), (budget - 1) as nat) {
            Some((v, n)) => Some((((s[0] - 128) + 128 * v) as nat, n + 1)),
            None => None,
        }
    }
}

/// A varint of at most ten bytes whose value fits in 64 bits, read from the
/// front of `s`: its value and its length.
pub open spec fn varint_decode(s: Seq<u8>) -> Option<(nat, nat)> {
    varint_parse(s, 10)
}

/// Appends the base-128 encoding of `value` to `buf`.
///
/// Calls `prost::encoding::encode_varint`, which pushes the seven-bit groups of
/// `value`, least significant first, with the continuation bit on all but the
/// last, onto the vector.
#[verifier::external_body]
fn put_varint(value: u64, buf: &mut Vec<u8>)
    ensures
        final(buf)@ == old(buf)@ + varint_bytes(value as nat),
{
    prost::encoding::encode_varint(value, buf);
}

/// Reads a varint from the front of `data`, handing back its value and the bytes
/// after it.
///
/// Calls `prost::encoding::decode_varint` on the slice, which reads up to ten
/// bytes until one below 0x80, fails when none comes, when the input ends first,
/// or when the tenth byte is above 1, and advances the slice past what it read.
#[verifier::external_body]
fn take_varint(data: &[u8]) -> (r: Option<(u64, &[u8])>)
    ensures
        match r {
            Some((v, rest)) => {
                &&& rest@.len() <= data@.len()
                &&& rest@ == data@.skip(data@.len() - rest@.len())
                &&& varint_decode(data@) == Some((v as nat, (data@.len() - rest@.len()) as nat))
            },
            None => varint_decode(data@) is None,
        },
{
    let mut rest = data;
    match prost::encoding::decode_varint(&mut rest) {
        Ok(v) => Some((v, rest)),
        Err(_) => None,
    }
}

/// The encoding of a value below `2^(7k)` takes at most `k` bytes, and at least one.
pub proof fn lemma_varint_len(v: nat, k: nat)
    requires
        1 <= k,
        v < pow2(7 * k),
    ensures
        1 <= varint_bytes(v).len() <= k,
    decreases v,
{
    if v >= 128 {
        let k1 = (k - 1) as nat;
        lemma_pow2_adds(7 * k1, 7);
        lemma2_to64();
        assert(7 * k == 7 * k1 + 7);
        assert(v / 128 < pow2(7 * k1)) by (nonlinear_arith)
            requires
                v < pow2(7 * k1) * 128,
        ;
        if k1 == 0 {
            assert(pow2(7 * k1) == 1);
            assert(false);
        }
        lemma_varint_len(v / 128, k1);
    }
}

/// Byte `i` of the encoding of `v` carries the seven bits of `v` from bit `7i`
/// up, least significant group first: every byte but the last has its high bit
/// set, and the last byte is what is left of `v`, below 128.
pub proof fn lemma_varint_groups(v: nat, i: nat)
    requires
        i < varint_bytes(v).len(),
    ensures
        varint_bytes(v)[i as int] % 128 == (v / pow(128, i) as nat) % 128,
        i + 1 < varint_bytes(v).len() ==> varint_bytes(v)[i as int] >= 128,
        i + 1 == varint_bytes(v).len() ==> varint_bytes(v)[i as int] == v / pow(128, i) as nat,
    decreases v,
{
    lemma_pow_positive(128, i);
    if i == 0 {
        reveal(pow);
        assert(pow(128, 0) == 1);
        if v >= 128 {
            assert(varint_bytes(v).len() == 1 + varint_bytes(v / 128).len());
            assert(varint_bytes(v / 128).len() >= 1);
        }
    } else {
        assert(v >= 128);
        let i1 = (i - 1) as nat;
        assert(varint_bytes(v)[i as int] == varint_bytes(v / 128)[i1 as int]);
        lemma_varint_groups(v / 128, i1);
        lemma_pow_positive(128, i1);
        assert(pow(128, i) == 128 * pow(128, i1)) by {
            reveal(pow);
        }
        lemma_div_denominator(v as int, 128, pow(128, i1));
    }
}

/// Reading back an encoding gives the value and the encoding's length, whatever
/// follows it, as long as the value fits the budget.
pub proof fn lemma_varint_parse_bytes(v: nat, rest: Seq<u8>, budget: nat)
    requires
        1 <= budget,
        v < pow2((7 * budget - 6) as nat),
    ensures
        varint_parse(varint_bytes(v) + rest, budget) == Some((v, varint_bytes(v).len())),
    decreases v,
{
    let s = varint_bytes(v) + rest;
    lemma2_to64();
    if v < 128 {
        assert(s[0] == v as u8);
    } else {
        if budget == 1 {
            assert(false);
        }
        let b1 = (budget - 1) as nat;
        let e = (7 * b1 - 6) as nat;
        lemma_pow2_adds(e, 7);
        assert((7 * budget - 6) as nat == e + 7);
        assert(v / 128 < pow2(e)) by (nonlinear_arith)
            requires
                v < pow2(e) * 128,
        ;
        assert(s.drop_first() =~= varint_bytes(v / 128) + rest);
        lemma_varint_parse_bytes(v / 128, rest, b1);
        assert(s[0] == (v % 128 + 128) as u8);
    }
}

/// Decoding the encoding of a 64-bit value, followed by anything, gives the
/// value back and the length of its encoding.
pub proof fn lemma_varint_roundtrip(v: u64, rest: Seq<u8>)
    ensures
        varint_decode(varint_bytes(v as nat) + rest) == Some((v as nat, varint_bytes(v as nat).len())),
        varint_bytes(v as nat).len() <= 10,
{
    lemma2_to64();
    assert((7 * 10 - 6) as nat == 64);
    lemma_varint_parse_bytes(v as nat, rest, 10);
    lemma_pow2_adds(64, 6);
    assert(pow2(64) <= pow2(70)) by (nonlinear_arith)
        requires
            pow2(70) == pow2(64) * pow2(6),
            pow2(6) == 64,
    ;
    lemma_varint_len(v as nat, 10);
}

// ---------------------------------------------------------------------------
// Faults
// ---------------------------------------------------------------------------

/// The wire type of a varint field.
pub const WIRE_VARINT: u8 = 0;

/// The wire type of a length-delimited field.
pub const WIRE_DELIMITED: u8 = 2;

/// Why a buffer could not be decoded.
#[derive(Debug)]
pub enum CodecError {
    /// A varint ran past ten bytes, past the buffer, or past 64 bits.
    InvalidVarint,
    /// A field key above `u32::MAX`.
    InvalidKey(u64),
    /// A field key whose low three bits name no wire type.
    InvalidWireType(u64),
    /// A field key with tag zero.
    InvalidTag,
    /// A known field sent with another wire type than its own.
    UnexpectedWireType { actual: u8, expected: u8 },
    /// A length that reaches past the end of the buffer.
    BufferUnderflow,
    /// An embedded message whose fields ran past its declared length.
    DelimitedLengthExceeded,
    /// A string field whose bytes are not UTF-8.
    InvalidString,
    /// An unknown field that could not be skipped, with `prost`'s description
    /// of why.
    Skip(String),
    /// A fault inside the field `field` of the message named `message`.
    Located { inner: Box<CodecError>, message: &'static str, field: &'static str },
}

/// The mathematical content of a [`CodecError`].
pub enum WireFault {
    InvalidVarint,
    InvalidKey(u64),
    InvalidWireType(u64),
    InvalidTag,
    UnexpectedWireType(u8, u8),
    BufferUnderflow,
    DelimitedLengthExceeded,
    InvalidString,
    Skip(Seq<char>),
    Located(Box<WireFault>, Seq<char>, Seq<char>),
}

impl View for CodecError {
    type V = WireFault;

    open spec fn view(&self) -> WireFault
        decreases self,
    {
        match self {
            CodecError::InvalidVarint => WireFault::InvalidVarint,
            CodecError::InvalidKey(k) => WireFault::InvalidKey(*k),
            CodecError::InvalidWireType(w) => WireFault::InvalidWireType(*w),
            CodecError::InvalidTag => WireFault::InvalidTag,
            CodecError::UnexpectedWireType { actual, expected } => WireFault::UnexpectedWireType(
                *actual,
                *expected,
            ),
            CodecError::BufferUnderflow => WireFault::BufferUnderflow,
            CodecError::DelimitedLengthExceeded => WireFault::DelimitedLengthExceeded,
            CodecError::InvalidString => WireFault::InvalidString,
            CodecError::Skip(d) => WireFault::Skip(d@),
            CodecError::Located { inner, message, field } => WireFault::Located(
                Box::new((**inner)@),
                message@,
                field@,
            ),
        }
    }
}

/// A fault `f` met while reading the field `field` of the message `message`:
/// the location is recorded, as `prost` records it on the way out of each
/// field it was merging.
pub open spec fn locate(f: WireFault, message: Seq<char>, field: Seq<char>) -> WireFault {
    WireFault::Located(Box::new(f), message, field)
}

/// The fault under all recorded locations.
pub open spec fn fault_cause(f: WireFault) -> WireFault
    decreases f,
{
    match f {
        WireFault::Located(inner, _, _) => fault_cause(*inner),
        _ => f,
    }
}

/// The recorded locations, innermost first, each as `message.field: `.
pub open spec fn fault_locations(f: WireFault) -> Seq<char>
    decreases f,
{
    match f {
        WireFault::Located(inner, message, field) => fault_locations(*inner) + message + "."@ + field + ": "@,
        _ => Seq::empty(),
    }
}

/// The `Debug` name of a wire type.
pub open spec fn wire_type_name(wt: u8) -> Seq<char> {
    if wt == 0 {
        "Varint"@
    } else if wt == 1 {
        "SixtyFourBit"@
    } else if wt == 2 {
        "LengthDelimited"@
    } else if wt == 3 {
        "StartGroup"@
    } else if wt == 4 {
        "EndGroup"@
    } else {
        "ThirtyTwoBit"@
    }
}

/// The description of a fault, as `prost` words it: its locations, then what
/// went wrong.
pub open spec fn fault_description(f: WireFault) -> Seq<char> {
    fault_locations(f) + cause_description(fault_cause(f))
}

/// What went wrong, as `prost` words it.
pub open spec fn cause_description(f: WireFault) -> Seq<char> {
    match f {
        WireFault::InvalidVarint => "invalid varint"@,
        WireFault::InvalidKey(k) => "invalid key value: "@ + decimal(k as nat),
        WireFault::InvalidWireType(v) => "invalid wire type value: "@ + decimal(v as nat),
        WireFault::InvalidTag => "invalid tag value: 0"@,
        WireFault::UnexpectedWireType(a, e) => "invalid wire type: "@ + wire_type_name(a) + " (expected "@
            + wire_type_name(e) + ")"@,
        WireFault::BufferUnderflow => "buffer underflow"@,
        WireFault::DelimitedLengthExceeded => "delimited length exceeded"@,
        WireFault::InvalidString => "invalid string value: data is not UTF-8 encoded"@,
        WireFault::Skip(d) => d,
        WireFault::Located(..) => Seq::empty(),
    }
}

/// The name of a wire type.
fn wire_type_name_text(wt: u8) -> (t: &'static str)
    ensures
        t@ == wire_type_name(wt),
{
    if wt == 0 {
        "Varint"
    } else if wt == 1 {
        "SixtyFourBit"
    } else if wt == 2 {
        "LengthDelimited"
    } else if wt == 3 {
        "StartGroup"
    } else if wt == 4 {
        "EndGroup"
    } else {
        "ThirtyTwoBit"
    }
}

impl CodecError {
    /// Records that this fault occurred while reading `field` of `message`.
    pub fn located(self, message: &'static str, field: &'static str) -> (r: CodecError)
        ensures
            r@ == locate(self@, message@, field@),
    {
        CodecError::Located { inner: Box::new(self), message, field }
    }

    /// Appends the recorded locations, innermost first.
    fn append_locations(&self, t: &mut String)
        ensures
            final(t)@ == old(t)@ + fault_locations(self@),
        decreases self,
    {
        match self {
            CodecError::Located { inner, message, field } => {
                inner.append_locations(t);
                t.append(*message);
                t.append(".");
                t.append(*field);
                t.append(": ");
            },
            _ => {},
        }
    }

    /// The fault under all recorded locations.
    fn cause(&self) -> (c: &CodecError)
        ensures
            c@ == fault_cause(self@),
            !(c@ is Located),
        decreases self,
    {
        match self {
            CodecError::Located { inner, .. } => inner.cause(),
            _ => self,
        }
    }

    /// The text of this error: `failed to decode Protobuf message: `, the
    /// fields the fault occurred in, then what went wrong.
    pub fn message(&self) -> (t: String)
        ensures
            t@ == "failed to decode Protobuf message: "@ + fault_description(self@),
    {
        let mut t = String::from_str("failed to decode Protobuf message: ");
        self.append_locations(&mut t);
        match self.cause() {
            CodecError::InvalidVarint => t.append("invalid varint"),
            CodecError::InvalidKey(k) => {
                t.append("invalid key value: ");
                let d = u64_text(*k);
                t.append(d.as_str());
            },
            CodecError::InvalidWireType(v) => {
                t.append("invalid wire type value: ");
                let d = u64_text(*v);
                t.append(d.as_str());
            },
            CodecError::InvalidTag => t.append("invalid tag value: 0"),
            CodecError::UnexpectedWireType { actual, expected } => {
                t.append("invalid wire type: ");
                t.append(wire_type_name_text(*actual));
                t.append(" (expected ");
                t.append(wire_type_name_text(*expected));
                t.append(")");
            },
            CodecError::BufferUnderflow => t.append("buffer underflow"),
            CodecError::DelimitedLengthExceeded => t.append("delimited length exceeded"),
            CodecError::InvalidString => t.append("invalid string value: data is not UTF-8 encoded"),
            CodecError::Skip(d) => t.append(d.as_str()),
            CodecError::Located { .. } => {},
        }
        t
    }
}

// ---------------------------------------------------------------------------
// Reading fields at a position
// ---------------------------------------------------------------------------

/// The varint that starts at `pos`: its value and the position after it.
pub open spec fn varint_at(s: Seq<u8>, pos: nat) -> Option<(nat, nat)> {
    match varint_decode(s.skip(pos as int)) {
        Some((v, n)) => Some((v, pos + n)),
        None => None,
    }
}

/// The field key that starts at `pos`: its tag, its wire type and the position
/// after it.
pub open spec fn key_at(s: Seq<u8>, pos: nat) -> Result<(nat, u8, nat), WireFault> {
    match varint_at(s, pos) {
        None => Err(WireFault::InvalidVarint),
        Some((k, p)) => if k > u32::MAX {
            Err(WireFault::InvalidKey(k as u64))
        } else if k % 8 > 5 {
            Err(WireFault::InvalidWireType((k % 8) as u64))
        } else if k / 8 == 0 {
            Err(WireFault::InvalidTag)
        } else {
            Ok((k / 8, (k % 8) as u8, p))
        },
    }
}

/// The body of a length-delimited field whose length prefix starts at `pos`:
/// the positions where the body starts and ends.
pub open spec fn delimited_at(s: Seq<u8>, pos: nat, wt: u8) -> Result<(nat, nat), WireFault> {
    if wt != WIRE_DELIMITED {
        Err(WireFault::UnexpectedWireType(wt, WIRE_DELIMITED))
    } else {
        match varint_at(s, pos) {
            None => Err(WireFault::InvalidVarint),
            Some((len, p)) => if len > s.len() - p {
                Err(WireFault::BufferUnderflow)
            } else {
                Ok((p, p + len))
            },
        }
    }
}

/// The value of a varint field that starts at `pos`, and the position after it.
pub open spec fn uint_at(s: Seq<u8>, pos: nat, wt: u8) -> Result<(nat, nat), WireFault> {
    if wt != WIRE_VARINT {
        Err(WireFault::UnexpectedWireType(wt, WIRE_VARINT))
    } else {
        match varint_at(s, pos) {
            None => Err(WireFault::InvalidVarint),
            Some((v, p)) => Ok((v, p)),
        }
    }
}

/// The bytes of a length-delimited field that starts at `pos`, and the position
/// after them.
pub open spec fn bytes_at(s: Seq<u8>, pos: nat, wt: u8) -> Result<(Seq<u8>, nat), WireFault> {
    match delimited_at(s, pos, wt) {
        Err(f) => Err(f),
        Ok((a, b)) => Ok((s.subrange(a as int, b as int), b)),
    }
}

/// The text of a string field that starts at `pos`, and the position after it.
pub open spec fn string_at(s: Seq<u8>, pos: nat, wt: u8) -> Result<(Seq<char>, nat), WireFault> {
    match bytes_at(s, pos, wt) {
        Err(f) => Err(f),
        Ok((b, p)) => if valid_utf8(b) {
            Ok((decode_utf8(b), p))
        } else {
            Err(WireFault::InvalidString)
        },
    }
}

/// How many bytes `prost` consumes when it skips an unknown field with this
/// wire type and tag at the front of `data`, or `None` when it cannot.
pub uninterp spec fn skip_outcome(wire_type: u8, tag: u32, data: Seq<u8>) -> Option<nat>;

/// How `prost` describes why it cannot skip an unknown field with this wire
/// type and tag at the front of `data`.
pub uninterp spec fn skip_fault_text(wire_type: u8, tag: u32, data: Seq<u8>) -> Seq<char>;

/// The position after an unknown field whose body starts at `pos`.
pub open spec fn skip_at(s: Seq<u8>, pos: nat, wt: u8, tag: nat) -> Result<nat, WireFault> {
    match skip_outcome(wt, tag as u32, s.skip(pos as int)) {
        Some(n) => if n <= s.len() - pos {
            Ok(pos + n)
        } else {
            Err(WireFault::Skip(Seq::empty()))
        },
        None => Err(WireFault::Skip(skip_fault_text(wt, tag as u32, s.skip(pos as int)))),
    }
}

/// Skips an unknown field at the front of `data`.
///
/// Calls `prost::encoding::skip_field` with a fresh decoding context, which reads
/// past the field body (a varint, four or eight bytes, a length-prefixed run, or a
/// group up to its end key) and otherwise fails with an error of its own, on
/// which no field location has been recorded yet, so that its text is the
/// `Display` prefix of every `prost` decoding error followed by the description;
/// it only ever advances the slice. The failure is returned as that text.
#[verifier::external_body]
fn skip_field_bytes(wt: u8, tag: u32, data: &[u8]) -> (r: Result<&[u8], String>)
    requires
        wt <= 5,
    ensures
        match r {
            Ok(rest) => {
                &&& rest@.len() <= data@.len()
                &&& rest@ == data@.skip(data@.len() - rest@.len())
                &&& skip_outcome(wt, tag, data@) == Some((data@.len() - rest@.len()) as nat)
            },
            Err(t) => skip_outcome(wt, tag, data@) is None && t@ == "failed to decode Protobuf message: "@
                + skip_fault_text(wt, tag, data@),
        },
{
    let wire_type = match wt {
        0 => prost::encoding::WireType::Varint,
        1 => prost::encoding::WireType::SixtyFourBit,
        2 => prost::encoding::WireType::LengthDelimited,
        3 => prost::encoding::WireType::StartGroup,
        4 => prost::encoding::WireType::EndGroup,
        _ => prost::encoding::WireType::ThirtyTwoBit,
    };
    let mut rest = data;
    match prost::encoding::skip_field(wire_type, tag, &mut rest, prost::encoding::DecodeContext::default()) {
        Ok(()) => Ok(rest),
        Err(e) => Err(e.to_string()),
    }
}

/// Reads the varint at `pos`.
fn read_varint_at(data: &[u8], pos: usize) -> (r: Option<(u64, usize)>)
    requires
        pos <= data@.len(),
    ensures
        match r {
            Some((v, p)) => varint_at(data@, pos as nat) == Some((v as nat, p as nat)) && p <= data@.len(),
            None => varint_at(data@, pos as nat) is None,
        },
{
    let tail = slice_subrange(data, pos, data.len());
    assert(tail@ =~= data@.skip(pos as int));
    match take_varint(tail) {
        Some((v, rest)) => Some((v, data.len() - rest.len())),
        None => None,
    }
}

/// Reads the field key at `pos`.
pub fn read_key(data: &[u8], pos: usize) -> (r: Result<(u32, u8, usize), CodecError>)
    requires
        pos <= data@.len(),
    ensures
        match r {
            Ok((tag, wt, p)) => key_at(data@, pos as nat) == Ok::<_, WireFault>((tag as nat, wt, p as nat))
                && pos < p <= data@.len() && wt <= 5,
            Err(e) => key_at(data@, pos as nat) == Err::<(nat, u8, nat), _>(e@),
        },
{
    match read_varint_at(data, pos) {
        None => Err(CodecError::InvalidVarint),
        Some((k, p)) => {
            proof {
                lemma_varint_parse_len(data@.skip(pos as int), 10);
            }
            if k > 0xffff_ffffu64 {
                Err(CodecError::InvalidKey(k))
            } else if k % 8 > 5 {
                Err(CodecError::InvalidWireType(k % 8))
            } else if k / 8 == 0 {
                Err(CodecError::InvalidTag)
            } else {
                Ok(((k / 8) as u32, (k % 8) as u8, p))
            }
        },
    }
}

/// A successful read takes at least one byte and no more than the budget.
pub proof fn lemma_varint_parse_len(s: Seq<u8>, budget: nat)
    ensures
        varint_parse(s, budget) matches Some((v, n)) ==> 1 <= n <= budget && n <= s.len(),
    decreases budget,
{
    if budget > 0 && s.len() > 0 && s[0] >= 128 {
        lemma_varint_parse_len(s.drop_first(), (budget - 1) as nat);
    }
}

/// Reads the length prefix of a length-delimited field at `pos`: where its
/// body starts and ends.
pub fn read_delimited(data: &[u8], pos: usize, wt: u8) -> (r: Result<(usize, usize), CodecError>)
    requires
        pos <= data@.len(),
    ensures
        match r {
            Ok((a, b)) => delimited_at(data@, pos as nat, wt) == Ok::<_, WireFault>((a as nat, b as nat))
                && pos <= a <= b <= data@.len(),
            Err(e) => delimited_at(data@, pos as nat, wt) == Err::<(nat, nat), _>(e@),
        },
{
    if wt != WIRE_DELIMITED {
        return Err(CodecError::UnexpectedWireType { actual: wt, expected: WIRE_DELIMITED });
    }
    match read_varint_at(data, pos) {
        None => Err(CodecError::InvalidVarint),
        Some((len, p)) => {
            if len > (data.len() - p) as u64 {
                Err(CodecError::BufferUnderflow)
            } else {
                proof {
                    lemma_varint_parse_len(data@.skip(pos as int), 10);
                }
                Ok((p, p + len as usize))
            }
        },
    }
}

/// Reads a varint field at `pos`: its value and the position after it.
pub fn read_uint(data: &[u8], pos: usize, wt: u8) -> (r: Result<(u64, usize), CodecError>)
    requires
        pos <= data@.len(),
    ensures
        match r {
            Ok((v, p)) => uint_at(data@, pos as nat, wt) == Ok::<_, WireFault>((v as nat, p as nat))
                && pos <= p <= data@.len(),
            Err(e) => uint_at(data@, pos as nat, wt) == Err::<(nat, nat), _>(e@),
        },
{
    if wt != WIRE_VARINT {
        return Err(CodecError::UnexpectedWireType { actual: wt, expected: WIRE_VARINT });
    }
    match read_varint_at(data, pos) {
        None => Err(CodecError::InvalidVarint),
        Some((v, p)) => {
            proof {
                lemma_varint_parse_len(data@.skip(pos as int), 10);
            }
            Ok((v, p))
        },
    }
}

/// Reads the bytes of a length-delimited field at `pos`.
pub fn read_bytes(data: &[u8], pos: usize, wt: u8) -> (r: Result<(Vec<u8>, usize), CodecError>)
    requires
        pos <= data@.len(),
    ensures
        match r {
            Ok((b, p)) => bytes_at(data@, pos as nat, wt) == Ok::<_, WireFault>((b@, p as nat))
                && pos <= p <= data@.len(),
            Err(e) => bytes_at(data@, pos as nat, wt) == Err::<(Seq<u8>, nat), _>(e@),
        },
{
    let (a, b) = read_delimited(data, pos, wt)?;
    let v = vstd::slice::slice_to_vec(slice_subrange(data, a, b));
    assert(v@ =~= data@.subrange(a as int, b as int));
    Ok((v, b))
}

/// The text of UTF-8 bytes, or `None` when they are not UTF-8.
///
/// Calls `String::from_utf8`, which std documents to fail exactly when the bytes
/// are not valid UTF-8 and otherwise to keep them as the string's bytes.
#[verifier::external_body]
fn utf8_text(bytes: Vec<u8>) -> (r: Option<String>)
    ensures
        r is Some <==> valid_utf8(bytes@),
        r matches Some(s) ==> encode_utf8(s@) == bytes@,
{
    match String::from_utf8(bytes) {
        Ok(s) => Some(s),
        Err(_) => None,
    }
}

/// Reads a string field at `pos`.
pub fn read_string(data: &[u8], pos: usize, wt: u8) -> (r: Result<(String, usize), CodecError>)
    requires
        pos <= data@.len(),
    ensures
        match r {
            Ok((t, p)) => string_at(data@, pos as nat, wt) == Ok::<_, WireFault>((t@, p as nat))
                && pos <= p <= data@.len(),
            Err(e) => string_at(data@, pos as nat, wt) == Err::<(Seq<char>, nat), _>(e@),
        },
{
    let (b, p) = read_bytes(data, pos, wt)?;
    let ghost bytes = b@;
    match utf8_text(b) {
        Some(t) => {
            proof {
                vstd::utf8::encode_utf8_decode_utf8(t@);
            }
            Ok((t, p))
        },
        None => Err(CodecError::InvalidString),
    }
}

/// Skips the body of an unknown field at `pos`.
pub fn skip_unknown(data: &[u8], pos: usize, wt: u8, tag: u32) -> (r: Result<usize, CodecError>)
    requires
        pos <= data@.len(),
        wt <= 5,
    ensures
        match r {
            Ok(p) => skip_at(data@, pos as nat, wt, tag as nat) == Ok::<_, WireFault>(p as nat)
                && pos <= p <= data@.len(),
            Err(e) => skip_at(data@, pos as nat, wt, tag as nat) == Err::<nat, _>(e@),
        },
{
    let tail = slice_subrange(data, pos, data.len());
    assert(tail@ =~= data@.skip(pos as int));
    match skip_field_bytes(wt, tag, tail) {
        Ok(rest) => Ok(data.len() - rest.len()),
        Err(t) => {
            let prefix = "failed to decode Protobuf message: ";
            let ghost d = skip_fault_text(wt, tag, tail@);
            assert(t@.take(prefix@.len() as int) =~= prefix@);
            assert(t@.skip(prefix@.len() as int) =~= d);
            match strip_prefix(t.as_str(), prefix) {
                Some(rest) => Err(CodecError::Skip(String::from_str(rest))),
                None => Err(CodecError::Skip(String::new())),
            }
        },
    }
}

// ---------------------------------------------------------------------------
// Writing fields
// ---------------------------------------------------------------------------

/// The key of a field with this tag and wire type.
pub open spec fn key_bytes(tag: nat, wt: nat) -> Seq<u8> {
    varint_bytes(tag * 8 + wt)
}

/// A length-delimited field: key, length and body.
pub open spec fn delimited_field(tag: nat, body: Seq<u8>) -> Seq<u8> {
    key_bytes(tag, WIRE_DELIMITED as nat) + varint_bytes(body.len()) + body
}

/// A varint field: key and value.
pub open spec fn uint_field(tag: nat, v: nat) -> Seq<u8> {
    key_bytes(tag, WIRE_VARINT as nat) + varint_bytes(v)
}

/// Appends a length-delimited field to `buf`.
pub fn put_delimited(tag: u64, body: &[u8], buf: &mut Vec<u8>)
    requires
        1 <= tag <= 15,
    ensures
        final(buf)@ == old(buf)@ + delimited_field(tag as nat, body@),
{
    put_varint(tag * 8 + 2, buf);
    put_varint(body.len() as u64, buf);
    let ghost mid = buf@;
    buf.extend_from_slice(body);
    assert(buf@ =~= mid + body@);
    assert(final(buf)@ =~= old(buf)@ + delimited_field(tag as nat, body@));
}

/// Appends a varint field to `buf`.
pub fn put_uint(tag: u64, v: u64, buf: &mut Vec<u8>)
    requires
        1 <= tag <= 15,
    ensures
        final(buf)@ == old(buf)@ + uint_field(tag as nat, v as nat),
{
    put_varint(tag * 8, buf);
    put_varint(v, buf);
    assert(final(buf)@ =~= old(buf)@ + uint_field(tag as nat, v as nat));
}

// ---------------------------------------------------------------------------
// Facts about reading what was written
// ---------------------------------------------------------------------------

/// `x` occurs in `s` starting at `pos`.
pub open spec fn occurs_at(s: Seq<u8>, pos: nat, x: Seq<u8>) -> bool {
    pos + x.len() <= s.len() && s.subrange(pos as int, (pos + x.len()) as int) == x
}

/// Every successful read moves forward and stays inside the buffer.
pub proof fn lemma_field_progress(s: Seq<u8>, pos: nat, wt: u8, tag: nat)
    requires
        pos <= s.len(),
    ensures
        key_at(s, pos) matches Ok((t, w, p)) ==> pos < p <= s.len() && w <= 5 && t >= 1,
        delimited_at(s, pos, wt) matches Ok((a, b)) ==> pos < a <= b <= s.len(),
        uint_at(s, pos, wt) matches Ok((v, p)) ==> pos < p <= s.len(),
        bytes_at(s, pos, wt) matches Ok((v, p)) ==> pos < p <= s.len(),
        string_at(s, pos, wt) matches Ok((v, p)) ==> pos < p <= s.len(),
        skip_at(s, pos, wt, tag) matches Ok(p) ==> pos <= p <= s.len(),
{
    lemma_varint_parse_len(s.skip(pos as int), 10);
}

/// A key written at `pos` reads back as its tag and wire type.
pub proof fn lemma_key_occurs(s: Seq<u8>, pos: nat, tag: nat, wt: u8)
    requires
        1 <= tag <= 15,
        wt <= 5,
        occurs_at(s, pos, key_bytes(tag, wt as nat)),
    ensures
        key_bytes(tag, wt as nat).len() == 1,
        key_at(s, pos) == Ok::<_, WireFault>((tag, wt, pos + 1)),
{
    let k = tag * 8 + wt;
    assert(k < 128);
    assert(key_bytes(tag, wt as nat) == seq![k as u8]);
    assert(s.skip(pos as int) =~= key_bytes(tag, wt as nat) + s.skip(pos + 1int));
    lemma_varint_roundtrip(k as u64, s.skip(pos + 1int));
}

/// A length-delimited field written at `pos` reads back as its key and the
/// bounds of its body.
pub proof fn lemma_delimited_occurs(s: Seq<u8>, pos: nat, tag: nat, body: Seq<u8>)
    requires
        1 <= tag <= 15,
        body.len() <= u64::MAX,
        occurs_at(s, pos, delimited_field(tag, body)),
    ensures
        ({
            let a = pos + 1 + varint_bytes(body.len()).len();
            &&& key_at(s, pos) == Ok::<_, WireFault>((tag, WIRE_DELIMITED, pos + 1))
            &&& delimited_at(s, pos + 1, WIRE_DELIMITED) == Ok::<_, WireFault>((a, a + body.len()))
            &&& s.subrange(a as int, (a + body.len()) as int) == body
            &&& a + body.len() == pos + delimited_field(tag, body).len()
        }),
{
    let f = delimited_field(tag, body);
    let kb = key_bytes(tag, WIRE_DELIMITED as nat);
    let lb = varint_bytes(body.len());
    assert(s.subrange(pos as int, (pos + kb.len()) as int) =~= kb) by {
        assert(f.subrange(0, kb.len() as int) =~= kb);
    }
    lemma_key_occurs(s, pos, tag, WIRE_DELIMITED);
    let p = pos + 1;
    assert(s.skip(p as int) =~= lb + s.skip((p + lb.len()) as int)) by {
        assert(f.subrange(1, (1 + lb.len()) as int) =~= lb);
    }
    lemma_varint_roundtrip(body.len() as u64, s.skip((p + lb.len()) as int));
    let a = p + lb.len();
    assert(s.subrange(a as int, (a + body.len()) as int) =~= body) by {
        assert(f.subrange((1 + lb.len()) as int, f.len() as int) =~= body);
    }
}

/// A varint field written at `pos` reads back as its key and value.
pub proof fn lemma_uint_occurs(s: Seq<u8>, pos: nat, tag: nat, v: u64)
    requires
        1 <= tag <= 15,
        occurs_at(s, pos, uint_field(tag, v as nat)),
    ensures
        key_at(s, pos) == Ok::<_, WireFault>((tag, WIRE_VARINT, pos + 1)),
        uint_at(s, pos + 1, WIRE_VARINT) == Ok::<_, WireFault>((v as nat, pos + uint_field(tag, v as nat).len())),
{
    let f = uint_field(tag, v as nat);
    let kb = key_bytes(tag, WIRE_VARINT as nat);
    let vb = varint_bytes(v as nat);
    assert(s.subrange(pos as int, (pos + kb.len()) as int) =~= kb) by {
        assert(f.subrange(0, kb.len() as int) =~= kb);
    }
    lemma_key_occurs(s, pos, tag, WIRE_VARINT);
    let p = pos + 1;
    assert(s.skip(p as int) =~= vb + s.skip((p + vb.len()) as int)) by {
        assert(f.subrange(1, (1 + vb.len()) as int) =~= vb);
    }
    lemma_varint_roundtrip(v, s.skip((p + vb.len()) as int));
}

/// Occurrence of a concatenation is occurrence of each part in turn.
pub proof fn lemma_occurs_concat(s: Seq<u8>, pos: nat, x: Seq<u8>, y: Seq<u8>)
    requires
        occurs_at(s, pos, x + y),
    ensures
        occurs_at(s, pos, x),
        occurs_at(s, pos + x.len(), y),
{
    let w = s.subrange(pos as int, (pos + (x + y).len()) as int);
    assert(w == x + y);
    assert(s.subrange(pos as int, (pos + x.len()) as int) =~= w.subrange(0, x.len() as int));
    assert(w.subrange(0, x.len() as int) =~= x);
    assert(s.subrange((pos + x.len()) as int, (pos + x.len() + y.len()) as int) =~= w.subrange(
        x.len() as int,
        w.len() as int,
    ));
    assert(w.subrange(x.len() as int, w.len() as int) =~= y);
}

} // verus!
