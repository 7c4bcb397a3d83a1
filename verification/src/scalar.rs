//! Scalars: the smallest values the store holds, and their textual form.

use vstd::prelude::*;
use vstd::std_specs::cmp::PartialEqSpecImpl;
use vstd::string::StrSliceExecFns;
use vstd::utf8::encode_utf8;

verus! {

/// The ASCII code of the digit `0`.
pub const ZERO: u8 = 48u8;

/// The ASCII code of the minus sign.
pub const MINUS: u8 = 45u8;

/// The decimal digits of `n` as ASCII, most significant first, with no
/// leading zero (the number zero is the single digit `0`).
pub open spec fn digits(n: nat) -> Seq<u8>
    decreases n,
{
    if n < 10 {
        seq![(48 + n) as u8]
    } else {
        digits(n / 10).push((48 + n % 10) as u8)
    }
}

/// The decimal text of an integer: its digits, after a minus sign when it
/// is negative.
pub open spec fn decimal(n: int) -> Seq<u8> {
    if n < 0 {
        seq![MINUS] + digits((-n) as nat)
    } else {
        digits(n as nat)
    }
}

/// Whether `b` is an ASCII decimal digit.
pub open spec fn is_digit(b: u8) -> bool {
    48 <= b <= 57
}

/// The number that a run of ASCII digits denotes.
pub open spec fn digits_value(s: Seq<u8>) -> nat
    decreases s.len(),
{
    if s.len() == 0 {
        0
    } else {
        digits_value(s.drop_last()) * 10 + (s.last() - 48) as nat
    }
}

/// The integer that a decimal text denotes: a run of digits, negated when
/// a minus sign stands before it.
pub open spec fn decimal_value(s: Seq<u8>) -> int {
    if s.len() > 0 && s[0] == MINUS {
        -(digits_value(s.skip(1)) as int)
    } else {
        digits_value(s) as int
    }
}

/// Whether `s` is a non-empty run of digits with no leading zero, the
/// single digit `0` aside.
pub open spec fn plain_digits(s: Seq<u8>) -> bool {
    &&& s.len() >= 1
    &&& forall|i: int| 0 <= i < s.len() ==> is_digit(#[trigger] s[i])
    &&& (s[0] == ZERO ==> s.len() == 1)
}

/// Whether `s` is the one way to write its number: plain digits, with a
/// minus sign in front only for a number below zero.
pub open spec fn canonical(s: Seq<u8>) -> bool {
    if s.len() > 0 && s[0] == MINUS {
        plain_digits(s.skip(1)) && s[1] != ZERO
    } else {
        plain_digits(s)
    }
}

/// The digits of a number are plain, and denote that number.
pub proof fn lemma_digits(n: nat)
    ensures
        plain_digits(digits(n)),
        digits_value(digits(n)) == n,
        n > 0 ==> digits(n)[0] != ZERO,
    decreases n,
{
    if n >= 10 {
        lemma_digits(n / 10);
        let d = digits(n / 10);
        assert(digits(n).drop_last() == d);
    } else {
        assert(digits_value(digits(n).drop_last()) == 0);
    }
}

/// The decimal text of every 64-bit integer is canonical and denotes that
/// integer: rendering loses nothing and adds nothing.
pub proof fn lemma_decimal_round_trip(n: i64)
    ensures
        canonical(decimal(n as int)),
        decimal_value(decimal(n as int)) == n,
        decimal(n as int)[0] == MINUS <==> n < 0,
{
    if n < 0 {
        let m = (-n) as nat;
        lemma_digits(m);
        let s = decimal(n as int);
        assert(s.skip(1) == digits(m));
    } else {
        lemma_digits(n as nat);
    }
}

/// What a scalar holds, as a mathematical value.
pub enum Scalar {
    /// A whole number.
    Number(int),
    /// A text.
    Text(Seq<char>),
}

impl Scalar {
    /// The bytes that stand for this scalar in a textual reply: the decimal
    /// text of a number, the UTF-8 encoding of a text.
    pub open spec fn text(self) -> Seq<u8> {
        match self {
            Scalar::Number(n) => decimal(n),
            Scalar::Text(s) => encode_utf8(s),
        }
    }
}

/// A scalar value: a signed 64-bit integer or a text string.
#[derive(Debug)]
pub enum StrValue {
    Numeric(i64),
    StringValue(String),
}

impl View for StrValue {
    type V = Scalar;

    open spec fn view(&self) -> Scalar {
        match self {
            StrValue::Numeric(n) => Scalar::Number(*n as int),
            StrValue::StringValue(s) => Scalar::Text(s@),
        }
    }
}

impl Clone for StrValue {
    fn clone(&self) -> (r: Self)
        ensures
            r@ == self@,
    {
        match self {
            StrValue::Numeric(n) => StrValue::Numeric(*n),
            StrValue::StringValue(s) => StrValue::StringValue(s.clone()),
        }
    }
}

impl PartialEq for StrValue {
    fn eq(&self, other: &Self) -> (r: bool) {
        match (self, other) {
            (StrValue::Numeric(a), StrValue::Numeric(b)) => *a == *b,
            (StrValue::StringValue(a), StrValue::StringValue(b)) => *a == *b,
            _ => false,
        }
    }
}

impl PartialEqSpecImpl for StrValue {
    open spec fn obeys_eq_spec() -> bool {
        true
    }

    open spec fn eq_spec(&self, other: &Self) -> bool {
        self@ == other@
    }
}

impl Eq for StrValue {

}

/// Appends the digits of `m` to `out`.
pub fn push_digits(out: &mut Vec<u8>, m: u64)
    ensures
        final(out)@ == old(out)@ + digits(m as nat),
    decreases m,
{
    if m >= 10 {
        push_digits(out, m / 10);
    }
    let d: u8 = (m % 10) as u8;
    out.push(ZERO + d);
}

/// Writes a 64-bit integer as decimal text.
pub fn render_i64(n: i64) -> (r: Vec<u8>)
    ensures
        r@ == decimal(n as int),
{
    let mut out: Vec<u8> = Vec::new();
    if n < 0 {
        out.push(MINUS);
        let m: u64 = (-(n + 1)) as u64 + 1;
        push_digits(&mut out, m);
    } else {
        push_digits(&mut out, n as u64);
    }
    out
}

impl StrValue {
    /// The bytes that stand for this scalar in a textual reply.
    pub fn to_bytes(&self) -> (r: Vec<u8>)
        ensures
            r@ == self@.text(),
    {
        match self {
            StrValue::Numeric(n) => render_i64(*n),
            StrValue::StringValue(s) => s.as_str().as_bytes_vec(),
        }
    }
}

} // verus!
