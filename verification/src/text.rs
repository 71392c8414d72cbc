//! Decimal and quoted renderings of values inside error messages.

use vstd::prelude::*;
use vstd::string::*;

verus! {

/// The ASCII digit for a value below ten.
pub open spec fn digit_char(d: nat) -> char {
    (48 + d) as char
}

/// The decimal digits of `n`, most significant first, without leading zeros.
pub open spec fn decimal(n: nat) -> Seq<char>
    decreases n,
{
    if n < 10 {
        seq![digit_char(n)]
    } else {
        decimal(n / 10).push(digit_char(n % 10))
    }
}

/// Ten to the power `k`.
pub open spec fn ten_pow(k: nat) -> nat
    decreases k,
{
    if k == 0 {
        1
    } else {
        10 * ten_pow((k - 1) as nat)
    }
}

/// A number below `10^k` has at most `k` digits, and its digits are ASCII.
pub proof fn lemma_decimal_len(n: nat, k: nat)
    requires
        1 <= k,
        n < ten_pow(k),
    ensures
        decimal(n).len() <= k,
        vstd::utf8::is_ascii_chars(decimal(n)),
    decreases n,
{
    if n >= 10 {
        let k1 = (k - 1) as nat;
        if k1 == 0 {
            assert(ten_pow(0) == 1);
            assert(ten_pow(1) == 10);
            assert(false);
        }
        assert(n / 10 < ten_pow(k1)) by (nonlinear_arith)
            requires
                n < 10 * ten_pow(k1),
        ;
        lemma_decimal_len(n / 10, k1);
        let d = decimal(n / 10);
        assert forall|i| 0 <= i < decimal(n).len() implies '\0' <= #[trigger] decimal(n)[i] <= '\u{7f}' by {
            if i < d.len() {
                assert(decimal(n)[i] == d[i]);
            }
        }
    }
}

/// A 64-bit number has at most twenty digits, all ASCII.
pub proof fn lemma_decimal_u64(n: nat)
    requires
        n <= u64::MAX,
    ensures
        decimal(n).len() <= 20,
        vstd::utf8::is_ascii_chars(decimal(n)),
{
    reveal_with_fuel(ten_pow, 21);
    assert(ten_pow(20) == 100000000000000000000nat);
    lemma_decimal_len(n, 20);
}

/// The decimal text of a `usize`.
///
/// Calls `<usize as ToString>::to_string`, which std documents as the decimal
/// representation without sign or leading zeros.
#[verifier::external_body]
pub(crate) fn usize_text(n: usize) -> (s: String)
    ensures
        s@ == decimal(n as nat),
{
    n.to_string()
}

/// The decimal text of a `u32`.
///
/// Calls `<u32 as ToString>::to_string`, the decimal representation without sign
/// or leading zeros.
#[verifier::external_body]
pub(crate) fn u32_text(n: u32) -> (s: String)
    ensures
        s@ == decimal(n as nat),
{
    n.to_string()
}

/// The decimal text of a `u64`.
///
/// Calls `<u64 as ToString>::to_string`, the decimal representation without sign
/// or leading zeros.
#[verifier::external_body]
pub(crate) fn u64_text(n: u64) -> (s: String)
    ensures
        s@ == decimal(n as nat),
{
    n.to_string()
}

/// A signed number in decimal, with a leading `-` when it is negative.
pub open spec fn signed_decimal(n: int) -> Seq<char> {
    if n < 0 {
        "-"@ + decimal((-n) as nat)
    } else {
        decimal(n as nat)
    }
}

/// The decimal text of an `i32`, with a leading `-` when it is negative.
pub(crate) fn i32_text(n: i32) -> (s: String)
    ensures
        s@ == signed_decimal(n as int),
{
    let m = n as i64;
    if m < 0 {
        let d = u64_text((-m) as u64);
        join2("-", d.as_str())
    } else {
        u64_text(m as u64)
    }
}

/// The `Debug` rendering of a string: the text in double quotes with escapes.
pub uninterp spec fn quoted(s: Seq<char>) -> Seq<char>;

/// The `Debug` rendering of a string.
///
/// Calls `<str as Debug>::fmt` through `format!("{:?}", s)`; the result is named
/// by `quoted`, a function of the characters alone.
#[verifier::external_body]
pub(crate) fn quoted_text(s: &str) -> (r: String)
    ensures
        r@ == quoted(s@),
{
    format!("{:?}", s)
}

/// `a` followed by `b`, as a new string.
pub fn join2(a: &str, b: &str) -> (r: String)
    ensures
        r@ == a@ + b@,
{
    let mut r = String::from_str(a);
    r.append(b);
    r
}

/// `a`, `b` and `c` in a row, as a new string.
pub fn join3(a: &str, b: &str, c: &str) -> (r: String)
    ensures
        r@ == a@ + b@ + c@,
{
    let mut r = String::from_str(a);
    r.append(b);
    r.append(c);
    r
}

/// `a`, `b`, `c` and `d` in a row, as a new string.
pub fn join4(a: &str, b: &str, c: &str, d: &str) -> (r: String)
    ensures
        r@ == a@ + b@ + c@ + d@,
{
    let mut r = String::from_str(a);
    r.append(b);
    r.append(c);
    r.append(d);
    r
}

} // verus!
