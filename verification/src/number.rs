//! Numbers of the trigger language: single-precision values held by their
//! IEEE 754 bit pattern, and decimal unsigned integers.

use vstd::arithmetic::power2::{
    lemma_pow2_pos, lemma_pow2_strictly_increases, lemma_pow2_unfold, pow2,
};
use crate::text::{chars_of, lowered, same_text, to_lower};
use vstd::prelude::*;

verus! {

/// The bit pattern from which the sign bit of a single-precision value counts.
pub const SIGN_BIT: u32 = 0x8000_0000;

/// The bit pattern of positive infinity: every larger magnitude is not a number.
pub const INFINITY_BITS: u32 = 0x7f80_0000;

/// Two to the power of 23: the weight of the exponent field in a bit
/// pattern, and the hidden leading bit of a normal mantissa.
pub const MANTISSA_SPAN: u32 = 0x80_0000;

/// A single-precision floating-point value, held by its IEEE 754 bit pattern.
///
/// The engine only ever compares such values, and the order of two values is
/// the order of their sign-and-magnitude bit patterns, so no arithmetic on
/// them is needed here. `==` compares the bit patterns: the two zeros differ
/// by it, and a value that is not a number equals itself.
#[derive(Clone, Copy, Debug, PartialEq, Eq, Structural)]
pub struct Float {
    pub bits: u32,
}

impl Float {
    /// The bits without the sign.
    pub open spec fn magnitude(self) -> int {
        if self.bits >= SIGN_BIT {
            self.bits - SIGN_BIT
        } else {
            self.bits as int
        }
    }

    /// Whether the sign bit is set.
    pub open spec fn is_negative(self) -> bool {
        self.bits >= SIGN_BIT
    }

    /// Whether the value is not a number: an exponent of all ones with a
    /// mantissa other than zero.
    pub open spec fn is_nan(self) -> bool {
        self.magnitude() > INFINITY_BITS
    }

    /// The place of a value that is a number on the number line: values
    /// compare as these integers do. Both zeros stand at 0.
    pub open spec fn rank(self) -> int {
        if self.is_negative() {
            -self.magnitude()
        } else {
            self.magnitude()
        }
    }

    /// `self > other` as IEEE 754 has it: false as soon as either side is not
    /// a number.
    pub open spec fn spec_gt(self, other: Float) -> bool {
        !self.is_nan() && !other.is_nan() && self.rank() > other.rank()
    }

    /// `self < other` as IEEE 754 has it.
    pub open spec fn spec_lt(self, other: Float) -> bool {
        other.spec_gt(self)
    }

    /// The value with the given bit pattern.
    pub fn from_bits(bits: u32) -> (r: Float)
        ensures
            r.bits == bits,
    {
        Float { bits }
    }

    /// The bit pattern of the value.
    pub fn to_bits(self) -> (r: u32)
        ensures
            r == self.bits,
    {
        self.bits
    }

    fn split(self) -> (r: (bool, u32))
        ensures
            r.0 == self.is_negative(),
            r.1 == self.magnitude(),
    {
        if self.bits >= SIGN_BIT {
            (true, self.bits - SIGN_BIT)
        } else {
            (false, self.bits)
        }
    }

    /// Strictly greater, for two values of any kind.
    pub fn gt(self, other: Float) -> (r: bool)
        ensures
            r == self.spec_gt(other),
    {
        let (a_neg, a_mag) = self.split();
        let (b_neg, b_mag) = other.split();
        if a_mag > INFINITY_BITS || b_mag > INFINITY_BITS {
            false
        } else if a_neg && b_neg {
            a_mag < b_mag
        } else if a_neg {
            false
        } else if b_neg {
            a_mag > 0 || b_mag > 0
        } else {
            a_mag > b_mag
        }
    }

    /// Strictly less, for two values of any kind.
    pub fn lt(self, other: Float) -> (r: bool)
        ensures
            r == self.spec_lt(other),
    {
        other.gt(self)
    }
}

impl Float {
    /// The exponent field of the bit pattern.
    pub open spec fn exponent(self) -> int {
        self.magnitude() / (MANTISSA_SPAN as int)
    }

    /// The mantissa field of the bit pattern.
    pub open spec fn mantissa(self) -> int {
        self.magnitude() % (MANTISSA_SPAN as int)
    }

    /// The size of a value that is a number, counted in units of the least
    /// positive value, two to the power of -149: the mantissa alone where the
    /// exponent field is zero, else the mantissa with its hidden bit, doubled
    /// once for each step of the exponent above one. Infinity comes out as the
    /// power of two above every finite value.
    pub open spec fn scaled_magnitude(self) -> int {
        if self.exponent() == 0 {
            self.mantissa()
        } else {
            (MANTISSA_SPAN + self.mantissa()) * pow2((self.exponent() - 1) as nat)
        }
    }

    /// The value itself in those units, with its sign.
    pub open spec fn scaled(self) -> int {
        if self.is_negative() {
            -self.scaled_magnitude()
        } else {
            self.scaled_magnitude()
        }
    }
}

/// Of two bit patterns without sign, the greater stands for the greater size.
pub proof fn lemma_magnitude_order(a: Float, b: Float)
    requires
        a.magnitude() < b.magnitude(),
    ensures
        0 <= a.scaled_magnitude() < b.scaled_magnitude(),
{
    let span = MANTISSA_SPAN as int;
    let (ea, ma) = (a.exponent(), a.mantissa());
    let (eb, mb) = (b.exponent(), b.mantissa());
    assert(a.magnitude() == ea * span + ma && 0 <= ma < span && 0 <= ea) by (nonlinear_arith)
        requires
            ea == a.magnitude() / span,
            ma == a.magnitude() % span,
            span == 0x80_0000,
            a.magnitude() >= 0,
    ;
    assert(b.magnitude() == eb * span + mb && 0 <= mb < span && 0 <= eb) by (nonlinear_arith)
        requires
            eb == b.magnitude() / span,
            mb == b.magnitude() % span,
            span == 0x80_0000,
            b.magnitude() >= 0,
    ;
    assert(ea <= eb) by (nonlinear_arith)
        requires
            ea * span + ma < eb * span + mb,
            0 <= ma < span,
            0 <= mb < span,
    ;
    if ea == eb {
        if ea > 0 {
            let p = pow2((ea - 1) as nat) as int;
            lemma_pow2_pos((ea - 1) as nat);
            assert((span + ma) * p < (span + mb) * p && 0 <= (span + ma) * p) by (nonlinear_arith)
                requires
                    0 <= ma < mb,
                    span > 0,
                    p > 0,
            ;
        }
    } else {
        let q = pow2((eb - 1) as nat) as int;
        lemma_pow2_pos((eb - 1) as nat);
        assert(span <= (span + mb) * q) by (nonlinear_arith)
            requires
                0 <= mb,
                span > 0,
                q >= 1,
        ;
        if ea > 0 {
            let p = pow2((ea - 1) as nat) as int;
            lemma_pow2_pos((ea - 1) as nat);
            lemma_pow2_unfold(ea as nat);
            if ea < eb - 1 {
                lemma_pow2_strictly_increases(ea as nat, (eb - 1) as nat);
            }
            assert(2 * p <= q);
            assert(0 <= (span + ma) * p < (span + mb) * q) by (nonlinear_arith)
                requires
                    0 <= ma < span,
                    0 <= mb,
                    p > 0,
                    2 * p <= q,
            ;
        }
    }
}

/// The order of two values that are numbers is the order of what they stand
/// for: one is greater than the other just when it is more units of the
/// least positive value.
pub proof fn lemma_order_is_numeric(a: Float, b: Float)
    requires
        !a.is_nan(),
        !b.is_nan(),
    ensures
        a.spec_gt(b) == (a.scaled() > b.scaled()),
        a.spec_lt(b) == (a.scaled() < b.scaled()),
{
    let zero = Float { bits: 0 };
    assert(zero.scaled_magnitude() == 0);
    if a.magnitude() < b.magnitude() {
        lemma_magnitude_order(a, b);
    } else if b.magnitude() < a.magnitude() {
        lemma_magnitude_order(b, a);
    } else {
        assert(a.scaled_magnitude() == b.scaled_magnitude());
    }
    if a.magnitude() > 0 {
        lemma_magnitude_order(zero, a);
    } else {
        assert(a.scaled_magnitude() == 0);
    }
    if b.magnitude() > 0 {
        lemma_magnitude_order(zero, b);
    } else {
        assert(b.scaled_magnitude() == 0);
    }
}

/// No value is greater than itself, and of two values at most one is greater
/// than the other.
pub proof fn lemma_gt_is_strict(a: Float, b: Float)
    ensures
        !a.spec_gt(a),
        !(a.spec_gt(b) && b.spec_gt(a)),
        a.spec_gt(b) == b.spec_lt(a),
{
}

/// Whether a character is one of the ten ASCII digits.
pub open spec fn is_digit(c: char) -> bool {
    '0' <= c <= '9'
}

/// The number that an ASCII digit stands for.
pub open spec fn digit_value(c: char) -> nat {
    (c as u32 - '0' as u32) as nat
}

/// Whether a text is made of ASCII digits only.
pub open spec fn all_digits(s: Seq<char>) -> bool {
    forall|i: int| 0 <= i < s.len() ==> is_digit(#[trigger] s[i])
}

/// The number that a text of digits writes in base ten.
pub open spec fn decimal_value(s: Seq<char>) -> nat
    decreases s.len(),
{
    if s.len() == 0 {
        0
    } else {
        decimal_value(s.drop_last()) * 10 + digit_value(s.last())
    }
}

/// The digits of an unsigned number: the text without one leading `+`.
pub open spec fn unsigned_digits(s: Seq<char>) -> Seq<char> {
    if s.len() > 0 && s[0] == '+' {
        s.skip(1)
    } else {
        s
    }
}

/// The unsigned integer up to `max` that a text writes: one or more ASCII
/// digits, after at most one `+`. Any other text, or a number above `max`,
/// writes none.
pub open spec fn parse_unsigned(s: Seq<char>, max: nat) -> Option<nat> {
    let digits = unsigned_digits(s);
    if digits.len() > 0 && all_digits(digits) && decimal_value(digits) <= max {
        Some(decimal_value(digits))
    } else {
        None
    }
}

/// A number is at least what any beginning of its digits writes.
pub proof fn lemma_value_grows(s: Seq<char>, k: int)
    requires
        0 <= k <= s.len(),
    ensures
        decimal_value(s.take(k)) <= decimal_value(s),
    decreases s.len(),
{
    if k == s.len() {
        assert(s.take(k) =~= s);
    } else {
        lemma_value_grows(s.drop_last(), k);
        assert(s.drop_last().take(k) =~= s.take(k));
    }
}

/// Reads an unsigned integer up to `max` from a text.
pub fn read_unsigned(v: &Vec<char>, max: u64) -> (r: Option<u64>)
    ensures
        r matches Some(n) ==> parse_unsigned(v@, max as nat) == Some(n as nat),
        r is None ==> parse_unsigned(v@, max as nat) is None,
{
    let start: usize = if v.len() > 0 && v[0] == '+' {
        1
    } else {
        0
    };
    let ghost digits = unsigned_digits(v@);
    proof {
        assert(digits =~= v@.skip(start as int));
    }
    if start == v.len() {
        return None;
    }
    let mut acc: u64 = 0;
    let mut i: usize = start;
    proof {
        assert(digits.take(0) =~= Seq::<char>::empty());
    }
    while i < v.len()
        invariant
            start <= i <= v.len(),
            digits == v@.skip(start as int),
            digits == unsigned_digits(v@),
            all_digits(digits.take(i - start)),
            acc == decimal_value(digits.take(i - start)),
            acc <= max,
        decreases v.len() - i,
    {
        let c = v[i];
        proof {
            assert(digits[i - start] == c);
        }
        if !('0' <= c && c <= '9') {
            return None;
        }
        let d: u32 = (c as u32) - ('0' as u32);
        let next: u128 = (acc as u128) * 10 + (d as u128);
        proof {
            let t = digits.take(i - start + 1);
            assert(t.drop_last() =~= digits.take(i - start));
            assert(t.last() == c);
            assert(decimal_value(t) == next);
            assert(all_digits(t)) by {
                assert forall|k: int| 0 <= k < t.len() implies is_digit(#[trigger] t[k]) by {
                    if k < t.len() - 1 {
                        assert(t[k] == digits.take(i - start)[k]);
                    }
                }
            }
            lemma_value_grows(digits, i - start + 1);
        }
        if next > max as u128 {
            return None;
        }
        acc = next as u64;
        i += 1;
    }
    proof {
        assert(digits.take(i - start) =~= digits);
    }
    Some(acc)
}

/// The ASCII digit for a number below ten.
pub open spec fn digit_char(d: nat) -> char {
    ('0' as u32 + d) as char
}

/// A number written in base ten, without leading zeros.
pub open spec fn decimal_text(n: nat) -> Seq<char>
    decreases n,
{
    if n < 10 {
        seq![digit_char(n)]
    } else {
        decimal_text(n / 10).push(digit_char(n % 10))
    }
}

/// The ASCII digit for a number below ten.
pub(crate) fn digit_of(d: u8) -> (r: char)
    requires
        d < 10,
    ensures
        r == digit_char(d as nat),
{
    (48u8 + d) as char
}

/// Appends a number in base ten to a string.
pub fn push_decimal(out: &mut String, n: u8)
    ensures
        final(out)@ == old(out)@ + decimal_text(n as nat),
{
    let ghost before = out@;
    proof {
        reveal_with_fuel(decimal_text, 3);
    }
    if n >= 100 {
        out.push(digit_of(n / 100));
    }
    if n >= 10 {
        out.push(digit_of((n / 10) % 10));
    }
    out.push(digit_of(n % 10));
    proof {
        assert(out@ =~= before + decimal_text(n as nat));
    }
}

/// Where the digits that begin at `from` end: the place of the first
/// character from there on that is no ASCII digit, or the length of the text.
pub open spec fn digits_end(s: Seq<char>, from: int) -> int
    decreases s.len() - from,
{
    if 0 <= from < s.len() && is_digit(s[from]) {
        digits_end(s, from + 1)
    } else {
        from
    }
}

/// Whether a character is a sign.
pub open spec fn is_sign(c: char) -> bool {
    c == '+' || c == '-'
}

/// A text without one leading sign.
pub open spec fn unsigned_part(s: Seq<char>) -> Seq<char> {
    if s.len() > 0 && is_sign(s[0]) {
        s.skip(1)
    } else {
        s
    }
}

/// Whether a text names infinity or a value that is not a number, in any
/// case: `inf`, `infinity`, `nan`.
pub open spec fn is_special_word(s: Seq<char>) -> bool {
    to_lower(s) == "inf"@ || to_lower(s) == "infinity"@ || to_lower(s) == "nan"@
}

/// Whether a text writes a decimal number: digits with at most one point
/// among them, at least one digit in all, then at most one exponent, which is
/// `e` or `E`, at most one sign, and one digit or more.
pub open spec fn is_decimal(s: Seq<char>) -> bool {
    let whole = digits_end(s, 0);
    let pointed = whole < s.len() && s[whole] == '.';
    let mantissa = if pointed {
        digits_end(s, whole + 1)
    } else {
        whole
    };
    let digits = if pointed {
        mantissa - 1
    } else {
        mantissa
    };
    let scaled = mantissa < s.len() && (s[mantissa] == 'e' || s[mantissa] == 'E');
    let exponent = if mantissa + 1 < s.len() && is_sign(s[mantissa + 1]) {
        mantissa + 2
    } else {
        mantissa + 1
    };
    if scaled {
        digits > 0 && digits_end(s, exponent) > exponent && digits_end(s, exponent) == s.len()
    } else {
        digits > 0 && mantissa == s.len()
    }
}

/// Whether a text writes a floating-point number: at most one sign, then a
/// decimal number or one of the special words.
pub open spec fn is_float_literal(s: Seq<char>) -> bool {
    is_special_word(unsigned_part(s)) || is_decimal(unsigned_part(s))
}

/// Finds where the digits that begin at `from` end.
fn skip_digits(v: &Vec<char>, from: usize) -> (r: usize)
    requires
        from <= v.len(),
    ensures
        r == digits_end(v@, from as int),
        from <= r <= v.len(),
{
    let mut i: usize = from;
    while i < v.len() && '0' <= v[i] && v[i] <= '9'
        invariant
            from <= i <= v.len(),
            digits_end(v@, from as int) == digits_end(v@, i as int),
        decreases v.len() - i,
    {
        i += 1;
    }
    i
}

/// A copy of the part of a text from `from` on.
fn rest_of(v: &Vec<char>, from: usize) -> (r: Vec<char>)
    requires
        from <= v.len(),
    ensures
        r@ == v@.skip(from as int),
{
    let mut out: Vec<char> = Vec::new();
    let mut i: usize = from;
    while i < v.len()
        invariant
            from <= i <= v.len(),
            out@ == v@.subrange(from as int, i as int),
        decreases v.len() - i,
    {
        out.push(v[i]);
        i += 1;
        proof {
            assert(out@ =~= v@.subrange(from as int, i as int));
        }
    }
    proof {
        assert(v@.subrange(from as int, v@.len() as int) =~= v@.skip(from as int));
    }
    out
}

fn is_special(v: &Vec<char>) -> (r: bool)
    ensures
        r == is_special_word(v@),
{
    let word = lowered(v);
    same_text(&word, &chars_of("inf")) || same_text(&word, &chars_of("infinity")) || same_text(
        &word,
        &chars_of("nan"),
    )
}

fn is_decimal_text(v: &Vec<char>) -> (r: bool)
    ensures
        r == is_decimal(v@),
{
    let n = v.len();
    let whole = skip_digits(v, 0);
    let pointed = whole < n && v[whole] == '.';
    let mantissa = if pointed {
        skip_digits(v, whole + 1)
    } else {
        whole
    };
    let digits = if pointed {
        mantissa - 1
    } else {
        mantissa
    };
    if digits == 0 {
        return false;
    }
    if mantissa < n && (v[mantissa] == 'e' || v[mantissa] == 'E') {
        let exponent = if n - mantissa > 1 && (v[mantissa + 1] == '+' || v[mantissa + 1] == '-') {
            mantissa + 2
        } else {
            mantissa + 1
        };
        let end = skip_digits(v, exponent);
        end > exponent && end == n
    } else {
        mantissa == n
    }
}

/// Decides whether a text writes a floating-point number.
pub fn is_float_text(v: &Vec<char>) -> (r: bool)
    ensures
        r == is_float_literal(v@),
{
    let body = if v.len() > 0 && (v[0] == '+' || v[0] == '-') {
        rest_of(v, 1)
    } else {
        rest_of(v, 0)
    };
    proof {
        assert(v@.skip(0) =~= v@);
    }
    is_special(&body) || is_decimal_text(&body)
}

} // verus!
