//! Numeric literals: classification, exact conversion to the integer types,
//! and narrowing to single precision.
//!
//! A literal's value is held as its IEEE-754 binary64 encoding. The value of
//! a finite encoding is `(-1)^sign * significand * 2^(exponent - 1075)`, so
//! `value * 2^1074` is always an integer: [`scaled_value`]. Comparisons of
//! the value with an integer bound, and its integer part, are stated over
//! that integer. All of it is integer arithmetic.

use vstd::prelude::*;
use vstd::arithmetic::power2::{
    lemma2_to64,
    lemma2_to64_rest,
    lemma_pow2_adds,
    lemma_pow2_pos,
    lemma_pow2_strictly_increases,
    lemma_pow2_unfold,
    pow2,
};
use vstd::arithmetic::div_mod::{
    lemma_basic_div,
    lemma_div_is_ordered,
    lemma_div_is_ordered_by_denominator,
    lemma_fundamental_div_mod,
    lemma_fundamental_div_mod_converse,
    lemma_mod_bound,
    lemma_small_mod,
};
use vstd::arithmetic::mul::lemma_mul_strict_inequality;
use crate::ast::{Number, NumberView};
use crate::error::{Unexpected, UnexpectedView};

verus! {

/// A literal counts as an integer when its source text is known and holds
/// no decimal point. The value plays no part in this.
pub open spec fn is_integer_text(raw: Option<Seq<char>>) -> bool {
    raw matches Some(text) && !text.contains('.')
}

/// The sign bit of a binary64 encoding.
pub open spec fn sign_bit(bits: u64) -> bool {
    bits >= 0x8000_0000_0000_0000
}

/// The eleven exponent bits of a binary64 encoding.
pub open spec fn biased_exponent(bits: u64) -> nat {
    ((bits / 0x10_0000_0000_0000) % 0x800) as nat
}

/// The fifty-two fraction bits of a binary64 encoding.
pub open spec fn fraction(bits: u64) -> nat {
    (bits % 0x10_0000_0000_0000) as nat
}

/// Neither an infinity nor a NaN.
pub open spec fn is_finite(bits: u64) -> bool {
    biased_exponent(bits) != 0x7ff
}

pub open spec fn is_nan(bits: u64) -> bool {
    biased_exponent(bits) == 0x7ff && fraction(bits) != 0
}

/// The significand of a finite encoding, with the implicit leading bit of a
/// normal number.
pub open spec fn significand(bits: u64) -> nat {
    if biased_exponent(bits) == 0 {
        fraction(bits)
    } else {
        0x10_0000_0000_0000 + fraction(bits)
    }
}

/// The power of two by which the significand is multiplied to give
/// `|value| * 2^1074`.
pub open spec fn scale(bits: u64) -> nat {
    if biased_exponent(bits) == 0 {
        0
    } else {
        (biased_exponent(bits) - 1) as nat
    }
}

/// `|value| * 2^1074` of a finite encoding.
pub open spec fn scaled_magnitude(bits: u64) -> nat {
    significand(bits) * pow2(scale(bits))
}

/// `value * 2^1074` of a finite encoding.
pub open spec fn scaled_value(bits: u64) -> int {
    if sign_bit(bits) {
        -(scaled_magnitude(bits) as int)
    } else {
        scaled_magnitude(bits) as int
    }
}

/// The integer part of `|value|` of a finite encoding.
pub open spec fn whole_part(bits: u64) -> nat {
    scaled_magnitude(bits) / pow2(1074)
}

/// Whether the value of a finite encoding has a fractional part.
pub open spec fn has_fraction(bits: u64) -> bool {
    scaled_magnitude(bits) % pow2(1074) != 0
}

/// The value rounded toward zero, of a finite encoding.
pub open spec fn truncated(bits: u64) -> int {
    if sign_bit(bits) {
        -(whole_part(bits) as int)
    } else {
        whole_part(bits) as int
    }
}

/// `value <= bound`. False of a NaN.
pub open spec fn value_le(bits: u64, bound: int) -> bool {
    if is_finite(bits) {
        scaled_value(bits) <= bound * pow2(1074)
    } else {
        !is_nan(bits) && sign_bit(bits)
    }
}

/// `value >= bound`. False of a NaN.
pub open spec fn value_ge(bits: u64, bound: int) -> bool {
    if is_finite(bits) {
        scaled_value(bits) >= bound * pow2(1074)
    } else {
        !is_nan(bits) && !sign_bit(bits)
    }
}

/// The integer that a literal stands for within `lo ..= hi`: its value
/// rounded toward zero, if the literal counts as an integer and
/// `lo <= value <= hi`.
pub open spec fn integer_in(number: NumberView, lo: int, hi: int) -> Option<int> {
    if is_integer_text(number.raw) && value_ge(number.value, lo) && value_le(number.value, hi) {
        Some(truncated(number.value))
    } else {
        None
    }
}

/// How a literal is named where it was not asked for: as a signed integer
/// if it counts as an integer and an `i64` holds its value, as an unsigned
/// one if only a `u64` holds it, as a float if it does not count as an
/// integer. A literal that counts as an integer and fits neither has no
/// such name.
pub open spec fn unexpected_of(number: NumberView) -> Option<UnexpectedView> {
    if is_integer_text(number.raw) {
        if value_le(number.value, i64::MAX as int) {
            if value_ge(number.value, i64::MIN as int) {
                Some(UnexpectedView::Signed(truncated(number.value) as i64))
            } else {
                None
            }
        } else if value_le(number.value, u64::MAX as int) && value_ge(number.value, 0) {
            Some(UnexpectedView::Unsigned(truncated(number.value) as u64))
        } else {
            None
        }
    } else {
        Some(UnexpectedView::Float(number.value))
    }
}

/// True if the literal's source text is known and holds no decimal point.
pub fn is_integer(number: &Number) -> (r: bool)
    ensures
        r == is_integer_text(number@.raw),
{
    match &number.raw {
        None => false,
        Some(text) => {
            let s = text.as_str();
            let n = s.unicode_len();
            let mut i: usize = 0;
            while i < n
                invariant
                    i <= n,
                    n == s@.len(),
                    number@.raw == Some(s@),
                    forall|j: int| 0 <= j < i ==> s@[j] != '.',
                decreases n - i,
            {
                if s.get_char(i) == '.' {
                    assert(s@[i as int] == '.');
                    return false;
                }
                i += 1;
            }
            true
        },
    }
}

/// Where the significand is scaled up by `2^1074` or more, the value is a
/// whole number.
proof fn lemma_split_high(sig: nat, shift: nat)
    ensures
        (sig * pow2(shift + 1074)) / pow2(1074) == sig * pow2(shift),
        (sig * pow2(shift + 1074)) % pow2(1074) == 0,
{
    let unit = pow2(1074);
    let q = sig * pow2(shift);
    lemma_pow2_adds(shift, 1074);
    lemma_pow2_pos(1074);
    assert(sig * (pow2(shift) * unit) == q * unit + 0) by (nonlinear_arith)
        requires
            q == sig * pow2(shift),
    ;
    lemma_fundamental_div_mod_converse((sig * pow2(shift + 1074)) as int, unit as int, q as int, 0);
}

/// Where the significand is scaled up by less than `2^1074`, its quotient
/// by the power of two that is missing is the integer part of the value,
/// and its remainder says whether a fractional part is left.
proof fn lemma_split_low(sig: nat, up: nat, down: nat, q: nat, r: nat)
    requires
        up + down == 1074,
        sig == q * pow2(down) + r,
        r < pow2(down),
    ensures
        (sig * pow2(up)) / pow2(1074) == q,
        ((sig * pow2(up)) % pow2(1074) == 0) == (r == 0),
{
    let unit = pow2(1074);
    let a = pow2(up);
    let b = pow2(down);
    lemma_pow2_adds(down, up);
    lemma_pow2_pos(up);
    lemma_pow2_pos(down);
    lemma_pow2_pos(1074);
    assert(unit == b * a);
    assert((q * b + r) * a == q * (b * a) + r * a) by (nonlinear_arith);
    lemma_mul_strict_inequality(r as int, b as int, a as int);
    assert(0 <= r * a) by (nonlinear_arith)
        requires
            r >= 0,
            a >= 0,
    ;
    lemma_fundamental_div_mod_converse((sig * a) as int, unit as int, q as int, (r * a) as int);
    assert((r * a == 0) == (r == 0)) by (nonlinear_arith)
        requires
            r >= 0,
            a > 0,
    ;
}

/// Comparing `m / unit` with an integer bound, by the quotient and the
/// remainder of `m`.
proof fn lemma_compare(m: nat, unit: nat, bound: int)
    requires
        unit > 0,
    ensures
        (m <= bound * unit) <==> (m / unit < bound || (m / unit == bound && m % unit == 0)),
        (m >= bound * unit) <==> (m / unit >= bound),
{
    let q = (m / unit) as int;
    let r = (m % unit) as int;
    lemma_fundamental_div_mod(m as int, unit as int);
    lemma_mod_bound(m as int, unit as int);
    assert(m == unit * q + r);
    assert((unit * q + r <= bound * unit) <==> (q < bound || (q == bound && r == 0)))
        by (nonlinear_arith)
        requires
            0 <= r < unit,
    ;
    assert((unit * q + r >= bound * unit) <==> (q >= bound)) by (nonlinear_arith)
        requires
            0 <= r < unit,
    ;
}

/// `2^e >= 2^76` for `e >= 76`.
proof fn lemma_pow2_76_up(e: nat)
    requires
        e >= 76,
    ensures
        pow2(e) >= 0x1000_0000_0000_0000_0000,
{
    lemma2_to64();
    lemma2_to64_rest();
    lemma_pow2_adds(64, 12);
    if e > 76 {
        lemma_pow2_strictly_increases(76, e);
    }
}

/// `2^e >= 2^53` for `e >= 53`.
proof fn lemma_pow2_53_up(e: nat)
    requires
        e >= 53,
    ensures
        pow2(e) >= 0x20_0000_0000_0000,
{
    lemma2_to64_rest();
    if e > 53 {
        lemma_pow2_strictly_increases(53, e);
    }
}

/// `2^n`.
fn power_of_two(n: u64) -> (r: u128)
    requires
        n <= 127,
    ensures
        r == pow2(n as nat),
{
    let mut r: u128 = 1;
    let mut i: u64 = 0;
    proof {
        lemma2_to64();
    }
    while i < n
        invariant
            i <= n <= 127,
            r == pow2(i as nat),
        decreases n - i,
    {
        proof {
            lemma2_to64_rest();
            lemma_pow2_adds(64, 63);
            lemma_pow2_unfold((i + 1) as nat);
            if i + 1 < 127 {
                lemma_pow2_strictly_increases((i + 1) as nat, 127);
            }
        }
        r = r * 2;
        i += 1;
    }
    r
}

/// What [`decode`] finds in a binary64 encoding.
struct Parts {
    finite: bool,
    negative: bool,
    huge: bool,
    whole: u128,
    fractional: bool,
}

/// Takes a binary64 encoding apart: sign, integer part and whether a
/// fractional part is left. `huge` says that the integer part is over
/// `u128::MAX`; `whole` is then meaningless.
fn decode(bits: u64) -> (p: Parts)
    ensures
        p.finite == is_finite(bits),
        p.negative == sign_bit(bits),
        p.finite ==> p.huge == (whole_part(bits) > u128::MAX),
        p.finite ==> p.fractional == has_fraction(bits),
        p.finite && !p.huge ==> p.whole == whole_part(bits),
{
    let negative = bits >= 0x8000_0000_0000_0000;
    let biased: u64 = (bits / 0x10_0000_0000_0000) % 0x800;
    let frac: u64 = bits % 0x10_0000_0000_0000;
    if biased == 0x7ff {
        return Parts { finite: false, negative, huge: false, whole: 0, fractional: false };
    }
    let sig: u64 = if biased == 0 {
        frac
    } else {
        0x10_0000_0000_0000 + frac
    };
    let up: u64 = if biased == 0 {
        0
    } else {
        biased - 1
    };
    if up >= 1074 {
        let shift: u64 = up - 1074;
        proof {
            lemma_split_high(sig as nat, shift as nat);
        }
        if shift >= 76 {
            proof {
                lemma_pow2_76_up(shift as nat);
                assert(sig * pow2(shift as nat) >= 0x10_0000_0000_0000 * 0x1000_0000_0000_0000_0000)
                    by (nonlinear_arith)
                    requires
                        sig >= 0x10_0000_0000_0000,
                        pow2(shift as nat) >= 0x1000_0000_0000_0000_0000,
                ;
            }
            Parts { finite: true, negative, huge: true, whole: 0, fractional: false }
        } else {
            let factor = power_of_two(shift);
            proof {
                lemma2_to64();
                lemma2_to64_rest();
                lemma_pow2_adds(64, 11);
                lemma_pow2_pos(shift as nat);
                assert(pow2(75) == 0x800_0000_0000_0000_0000);
                if shift < 75 {
                    lemma_pow2_strictly_increases(shift as nat, 75);
                }
                assert(sig * factor < 0x20_0000_0000_0000 * 0x800_0000_0000_0000_0000)
                    by (nonlinear_arith)
                    requires
                        sig < 0x20_0000_0000_0000,
                        0 < factor <= 0x800_0000_0000_0000_0000,
                ;
            }
            let whole: u128 = (sig as u128) * factor;
            Parts { finite: true, negative, huge: false, whole, fractional: false }
        }
    } else {
        let down: u64 = 1074 - up;
        if down >= 53 {
            proof {
                lemma_pow2_53_up(down as nat);
                lemma_split_low(sig as nat, up as nat, down as nat, 0, sig as nat);
            }
            Parts { finite: true, negative, huge: false, whole: 0, fractional: sig != 0 }
        } else {
            let divisor: u128 = power_of_two(down);
            proof {
                lemma_pow2_pos(down as nat);
            }
            let q: u128 = (sig as u128) / divisor;
            let r: u128 = (sig as u128) % divisor;
            proof {
                lemma_fundamental_div_mod(sig as int, divisor as int);
                assert(divisor * q == q * divisor) by (nonlinear_arith);
                lemma_split_low(sig as nat, up as nat, down as nat, q as nat, r as nat);
            }
            Parts { finite: true, negative, huge: false, whole: q, fractional: r != 0 }
        }
    }
}

/// The sign and the integer part of the value, if
/// `-below <= value <= above`.
fn bounded(bits: u64, below: u128, above: u128) -> (r: Option<(bool, u128)>)
    ensures
        r == (if value_ge(bits, -(below as int)) && value_le(bits, above as int) {
            Some((sign_bit(bits), whole_part(bits) as u128))
        } else {
            None
        }),
        r is Some ==> is_finite(bits) && whole_part(bits) <= (if sign_bit(bits) {
            below
        } else {
            above
        }),
{
    let p = decode(bits);
    if !p.finite {
        return None;
    }
    proof {
        let unit = pow2(1074);
        let m = scaled_magnitude(bits);
        lemma_pow2_pos(1074);
        lemma_compare(m, unit, below as int);
        lemma_compare(m, unit, above as int);
        assert((-(below as int)) * unit == -(below * unit)) by (nonlinear_arith);
        assert(0 <= below * unit) by (nonlinear_arith)
            requires
                unit > 0,
        ;
        assert(0 <= above * unit) by (nonlinear_arith)
            requires
                unit > 0,
        ;
    }
    if p.huge {
        return None;
    }
    let limit = if p.negative {
        below
    } else {
        above
    };
    if p.whole < limit || (p.whole == limit && !p.fractional) {
        Some((p.negative, p.whole))
    } else {
        None
    }
}

/// The integer of the given sign and magnitude.
fn signed(negative: bool, magnitude: u128) -> (r: i128)
    requires
        magnitude <= (if negative {
            0x8000_0000_0000_0000_0000_0000_0000_0000u128
        } else {
            0x7fff_ffff_ffff_ffff_ffff_ffff_ffff_ffffu128
        }),
    ensures
        r == (if negative {
            -(magnitude as int)
        } else {
            magnitude as int
        }),
{
    if !negative {
        magnitude as i128
    } else if magnitude == 0x8000_0000_0000_0000_0000_0000_0000_0000u128 {
        i128::MIN
    } else {
        0i128 - (magnitude as i128)
    }
}

/// `value >= bound` implies `value >= lower` for `lower <= bound`.
proof fn lemma_ge_weakens(bits: u64, bound: int, lower: int)
    requires
        lower <= bound,
        value_ge(bits, bound),
    ensures
        value_ge(bits, lower),
{
    lemma_pow2_pos(1074);
    assert(lower * pow2(1074) <= bound * pow2(1074)) by (nonlinear_arith)
        requires
            lower <= bound,
            pow2(1074) > 0,
    ;
}

/// Names the literal for a failure message: see [`unexpected_of`].
pub fn number_to_unexpected(number: &Number) -> (r: Option<Unexpected>)
    ensures
        match r {
            Some(u) => unexpected_of(number@) == Some(u@),
            None => unexpected_of(number@) is None,
        },
{
    if !is_integer(number) {
        return Some(Unexpected::Float(number.value));
    }
    match bounded(number.value, 0x8000_0000_0000_0000, 0x7fff_ffff_ffff_ffff) {
        Some((negative, magnitude)) => Some(Unexpected::Signed(signed(negative, magnitude) as i64)),
        None => match bounded(number.value, 0, 0xffff_ffff_ffff_ffff) {
            Some((_, magnitude)) => {
                proof {
                    lemma_ge_weakens(number.value, 0, i64::MIN as int);
                }
                Some(Unexpected::Unsigned(magnitude as u64))
            },
            None => {
                proof {
                    if value_ge(number.value, 0) {
                        lemma_ge_weakens(number.value, 0, i64::MIN as int);
                    }
                }
                None
            },
        },
    }
}

/// The literal as an `i128`: its value rounded toward zero, if the literal
/// counts as an integer and its value lies within the type's range.
pub fn number_to_i128(number: &Number) -> (r: Option<i128>)
    ensures
        match r {
            Some(v) => integer_in(number@, i128::MIN as int, i128::MAX as int) == Some(v as int),
            None => integer_in(number@, i128::MIN as int, i128::MAX as int) is None,
        },
{
    if !is_integer(number) {
        return None;
    }
    match bounded(
        number.value,
        0x8000_0000_0000_0000_0000_0000_0000_0000u128,
        0x7fff_ffff_ffff_ffff_ffff_ffff_ffff_ffffu128,
    ) {
        Some((negative, magnitude)) => Some(signed(negative, magnitude)),
        None => None,
    }
}

/// The literal as an `i16`, under the rule of [`number_to_i128`].
pub fn number_to_i16(number: &Number) -> (r: Option<i16>)
    ensures
        match r {
            Some(v) => integer_in(number@, i16::MIN as int, i16::MAX as int) == Some(v as int),
            None => integer_in(number@, i16::MIN as int, i16::MAX as int) is None,
        },
{
    if !is_integer(number) {
        return None;
    }
    match bounded(number.value, 0x8000, 0x7fff) {
        Some((negative, magnitude)) => Some(signed(negative, magnitude) as i16),
        None => None,
    }
}

/// The literal as an `i32`, under the rule of [`number_to_i128`].
pub fn number_to_i32(number: &Number) -> (r: Option<i32>)
    ensures
        match r {
            Some(v) => integer_in(number@, i32::MIN as int, i32::MAX as int) == Some(v as int),
            None => integer_in(number@, i32::MIN as int, i32::MAX as int) is None,
        },
{
    if !is_integer(number) {
        return None;
    }
    match bounded(number.value, 0x8000_0000, 0x7fff_ffff) {
        Some((negative, magnitude)) => Some(signed(negative, magnitude) as i32),
        None => None,
    }
}

/// The literal as an `i64`, under the rule of [`number_to_i128`].
pub fn number_to_i64(number: &Number) -> (r: Option<i64>)
    ensures
        match r {
            Some(v) => integer_in(number@, i64::MIN as int, i64::MAX as int) == Some(v as int),
            None => integer_in(number@, i64::MIN as int, i64::MAX as int) is None,
        },
{
    if !is_integer(number) {
        return None;
    }
    match bounded(number.value, 0x8000_0000_0000_0000, 0x7fff_ffff_ffff_ffff) {
        Some((negative, magnitude)) => Some(signed(negative, magnitude) as i64),
        None => None,
    }
}

/// The literal as an `i8`, under the rule of [`number_to_i128`].
pub fn number_to_i8(number: &Number) -> (r: Option<i8>)
    ensures
        match r {
            Some(v) => integer_in(number@, i8::MIN as int, i8::MAX as int) == Some(v as int),
            None => integer_in(number@, i8::MIN as int, i8::MAX as int) is None,
        },
{
    if !is_integer(number) {
        return None;
    }
    match bounded(number.value, 0x80, 0x7f) {
        Some((negative, magnitude)) => Some(signed(negative, magnitude) as i8),
        None => None,
    }
}

/// The literal as a `u128`, under the rule of [`number_to_i128`]. Negative
/// zero is zero.
pub fn number_to_u128(number: &Number) -> (r: Option<u128>)
    ensures
        match r {
            Some(v) => integer_in(number@, 0, u128::MAX as int) == Some(v as int),
            None => integer_in(number@, 0, u128::MAX as int) is None,
        },
{
    if !is_integer(number) {
        return None;
    }
    match bounded(number.value, 0, u128::MAX) {
        Some((_, magnitude)) => Some(magnitude),
        None => None,
    }
}

/// The literal as a `u16`, under the rule of [`number_to_u128`].
pub fn number_to_u16(number: &Number) -> (r: Option<u16>)
    ensures
        match r {
            Some(v) => integer_in(number@, 0, u16::MAX as int) == Some(v as int),
            None => integer_in(number@, 0, u16::MAX as int) is None,
        },
{
    if !is_integer(number) {
        return None;
    }
    match bounded(number.value, 0, 0xffff) {
        Some((_, magnitude)) => Some(magnitude as u16),
        None => None,
    }
}

/// The literal as a `u32`, under the rule of [`number_to_u128`].
pub fn number_to_u32(number: &Number) -> (r: Option<u32>)
    ensures
        match r {
            Some(v) => integer_in(number@, 0, u32::MAX as int) == Some(v as int),
            None => integer_in(number@, 0, u32::MAX as int) is None,
        },
{
    if !is_integer(number) {
        return None;
    }
    match bounded(number.value, 0, 0xffff_ffff) {
        Some((_, magnitude)) => Some(magnitude as u32),
        None => None,
    }
}

/// The literal as a `u64`, under the rule of [`number_to_u128`].
pub fn number_to_u64(number: &Number) -> (r: Option<u64>)
    ensures
        match r {
            Some(v) => integer_in(number@, 0, u64::MAX as int) == Some(v as int),
            None => integer_in(number@, 0, u64::MAX as int) is None,
        },
{
    if !is_integer(number) {
        return None;
    }
    match bounded(number.value, 0, 0xffff_ffff_ffff_ffff) {
        Some((_, magnitude)) => Some(magnitude as u64),
        None => None,
    }
}

/// The literal as a `u8`, under the rule of [`number_to_u128`].
pub fn number_to_u8(number: &Number) -> (r: Option<u8>)
    ensures
        match r {
            Some(v) => integer_in(number@, 0, u8::MAX as int) == Some(v as int),
            None => integer_in(number@, 0, u8::MAX as int) is None,
        },
{
    if !is_integer(number) {
        return None;
    }
    match bounded(number.value, 0, 0xff) {
        Some((_, magnitude)) => Some(magnitude as u8),
        None => None,
    }
}

/// `n / d`, rounded to the nearest integer, and to the even one of two
/// that are equally near.
pub open spec fn div_round_half_even(n: nat, d: nat) -> nat {
    let q = n / d;
    let r = n % d;
    if 2 * r > d || (2 * r == d && q % 2 == 1) {
        q + 1
    } else {
        q
    }
}

/// The exponent bits that the binary32 encoding of a finite binary64 value
/// has if it is a normal number of binary32: a value below 1 says by how
/// much it is too small to be one.
pub open spec fn narrow_exponent(bits: u64) -> int {
    if biased_exponent(bits) == 0 {
        -895
    } else {
        biased_exponent(bits) - 896
    }
}

/// The binary32 encoding of `|value|` of a finite binary64 encoding,
/// rounded to the nearest value that binary32 has, and to the one with an
/// even significand of two that are equally near.
///
/// A normal number keeps 24 of its 53 significant bits: the other 29 are
/// rounded off, and a carry goes into the exponent. What is too large
/// becomes infinity. What is too small for a normal number loses one bit
/// more for each power of two that it is short of one.
pub open spec fn narrowed_magnitude(bits: u64) -> nat {
    let target = narrow_exponent(bits);
    if target >= 1 {
        let encoding = (target - 1) * 0x80_0000 + div_round_half_even(
            significand(bits),
            0x2000_0000,
        );
        if encoding >= 0x7f80_0000 {
            0x7f80_0000
        } else {
            encoding as nat
        }
    } else {
        div_round_half_even(significand(bits), pow2((30 - target) as nat))
    }
}

/// The binary32 encoding of a binary64 value: the sign, and the magnitude
/// of [`narrowed_magnitude`]. An infinity stays one; a NaN becomes the
/// quiet NaN of its sign.
pub open spec fn narrowed(bits: u64) -> u32 {
    let sign: nat = if sign_bit(bits) {
        0x8000_0000
    } else {
        0
    };
    if is_nan(bits) {
        (sign + 0x7fc0_0000) as u32
    } else if !is_finite(bits) {
        (sign + 0x7f80_0000) as u32
    } else {
        (sign + narrowed_magnitude(bits)) as u32
    }
}

/// `n / d` rounded as [`div_round_half_even`] says.
fn round_half_even(n: u64, d: u64) -> (r: u64)
    requires
        n < 0x20_0000_0000_0000,
        0 < d <= 0x40_0000_0000_0000,
    ensures
        r == div_round_half_even(n as nat, d as nat),
        r <= n / d + 1,
{
    let q = n / d;
    let rest = n % d;
    if 2 * rest > d || (2 * rest == d && q % 2 == 1) {
        q + 1
    } else {
        q
    }
}

/// Narrows a binary64 encoding to binary32: see [`narrowed`].
pub fn narrow(bits: u64) -> (r: u32)
    ensures
        r == narrowed(bits),
{
    let sign: u32 = if bits >= 0x8000_0000_0000_0000 {
        0x8000_0000
    } else {
        0
    };
    let biased: u64 = (bits / 0x10_0000_0000_0000) % 0x800;
    let frac: u64 = bits % 0x10_0000_0000_0000;
    if biased == 0x7ff {
        return if frac != 0 {
            sign + 0x7fc0_0000
        } else {
            sign + 0x7f80_0000
        };
    }
    if biased >= 897 {
        let sig: u64 = 0x10_0000_0000_0000 + frac;
        let rounded = round_half_even(sig, 0x2000_0000);
        let encoding: u64 = (biased - 897) * 0x80_0000 + rounded;
        if encoding >= 0x7f80_0000 {
            sign + 0x7f80_0000
        } else {
            sign + (encoding as u32)
        }
    } else {
        let sig: u64 = if biased == 0 {
            frac
        } else {
            0x10_0000_0000_0000 + frac
        };
        let shift: u64 = if biased == 0 {
            925
        } else {
            926 - biased
        };
        if shift >= 55 {
            proof {
                lemma2_to64_rest();
                if shift > 55 {
                    lemma_pow2_strictly_increases(55, shift as nat);
                }
                lemma_basic_div(sig as int, pow2(shift as nat) as int);
                lemma_small_mod(sig as nat, pow2(shift as nat));
            }
            sign
        } else {
            let d = power_of_two(shift);
            proof {
                lemma2_to64_rest();
                lemma_pow2_pos(shift as nat);
                if shift < 54 {
                    lemma_pow2_strictly_increases(shift as nat, 54);
                }
                if shift > 30 {
                    lemma_pow2_strictly_increases(30, shift as nat);
                }
                lemma2_to64();
            }
            let rounded = round_half_even(sig, d as u64);
            proof {
                assert(sig / (d as u64) <= 0x7f_ffff) by {
                    lemma_div_is_ordered(sig as int, 0x20_0000_0000_0000 - 1, d as int);
                    lemma_div_by_at_least(0x20_0000_0000_0000 - 1, d as int);
                }
            }
            sign + (rounded as u32)
        }
    }
}

/// A quotient is no greater where the divisor is: here, of a number below
/// `2^53` by a divisor of `2^30` or more.
proof fn lemma_div_by_at_least(n: int, d: int)
    requires
        0 <= n < 0x20_0000_0000_0000,
        d >= 0x4000_0000,
    ensures
        n / d <= 0x7f_ffff,
{
    lemma_div_is_ordered_by_denominator(n, 0x4000_0000, d);
}

} // verus!
