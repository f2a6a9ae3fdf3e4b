//! Arithmetic on doubles in integer arithmetic: sum, difference, product and
//! quotient of two bit patterns, each rounded to the nearest double, ties to
//! the even significand, as the IEEE 754 standard asks. A finite number is
//! taken apart into a whole significand and a power of two, the exact
//! result is formed in whole numbers, and `packed` rounds it once.

use crate::number::{
    is_nan, is_negative, is_zero, magnitude, magnitude_of, negate, negated, HIDDEN_BIT,
    INFINITY_BITS, SIGN_BIT,
};
use vstd::arithmetic::power2::{lemma2_to64, lemma2_to64_rest, lemma_pow2_unfold, pow2};
use vstd::prelude::*;

verus! {

/// The pattern that stands for a result that is no number.
pub const NAN_BITS: u64 = 0x7FF8_0000_0000_0000;

/// 2^63: a significand at or above it has 64 binary digits or more.
pub const TOP: u128 = 0x8000_0000_0000_0000;

/// 2^64.
pub const LIMIT: u128 = 0x1_0000_0000_0000_0000;

/// 2^126.
pub const WIDE: u128 = 0x4000_0000_0000_0000_0000_0000_0000_0000;

pub open spec fn is_infinite(bits: u64) -> bool {
    magnitude(bits) == INFINITY_BITS
}

/// The whole significand of a finite number: its value is `mantissa *
/// 2^exponent`.
pub open spec fn mantissa(bits: u64) -> nat {
    let a = magnitude(bits);
    if a / HIDDEN_BIT == 0 {
        (a % HIDDEN_BIT) as nat
    } else {
        (HIDDEN_BIT + a % HIDDEN_BIT) as nat
    }
}

/// The power of two of a finite number.
pub open spec fn exponent(bits: u64) -> int {
    let e = magnitude(bits) / HIDDEN_BIT;
    if e == 0 {
        -1074
    } else {
        e - 1075
    }
}

/// Zero or infinity with a sign.
pub open spec fn with_sign(negative: bool, magnitude: u64) -> u64
    recommends
        magnitude < SIGN_BIT,
{
    if negative {
        (SIGN_BIT + magnitude) as u64
    } else {
        magnitude
    }
}

/// `m * 2^q` with `m` doubled until it has at least `digits` binary digits:
/// the same value, written with a larger significand. `floor` is
/// `2^(digits - 1)`.
pub open spec fn raised(m: nat, q: int, floor: nat) -> (nat, int)
    decreases
            if m < floor {
                floor - m
            } else {
                0
            },
{
    if m == 0 || m >= floor {
        (m, q)
    } else {
        raised(2 * m, q - 1, floor)
    }
}

/// `m * 2^q` with `m` halved until it is below 2^64; `sticky` says whether
/// anything was cut off, now or before.
pub open spec fn lowered(m: nat, q: int, sticky: bool) -> (nat, int, bool)
    decreases m,
{
    if m < LIMIT {
        (m, q, sticky)
    } else {
        lowered(m / 2, q + 1, sticky || m % 2 == 1)
    }
}

/// `m` halved `k` times; `sticky` says whether anything was cut off.
pub open spec fn halved(m: nat, sticky: bool, k: nat) -> (nat, bool)
    decreases k,
{
    if k == 0 {
        (m, sticky)
    } else {
        halved(m / 2, sticky || m % 2 == 1, (k - 1) as nat)
    }
}

/// `m / 2^k` rounded to the nearest whole number, a tie to the even one,
/// where `sticky` says that the true value is a little above `m`.
pub open spec fn rounded_at(m: nat, sticky: bool, k: nat) -> nat
    recommends
        k >= 1,
{
    let cut = halved(m, sticky, (k - 1) as nat);
    let kept = cut.0 / 2;
    if cut.0 % 2 == 1 && (cut.1 || kept % 2 == 1) {
        kept + 1
    } else {
        kept
    }
}

/// The double nearest to `m * 2^q`, or to a value a little above it if
/// `sticky`, with the sign `negative`: the significand is brought to 64
/// binary digits, then cut to the 53 of a normal number, or to what the
/// smallest power of two leaves of them; what is too large is infinity.
pub open spec fn packed(negative: bool, m: nat, q: int, sticky: bool) -> u64
    recommends
        sticky ==> m >= TOP,
{
    if m == 0 {
        with_sign(negative, 0)
    } else {
        let up = raised(m, q, TOP as nat);
        let down = lowered(up.0, up.1, sticky);
        let size: int = if down.1 > 960 {
            INFINITY_BITS as int
        } else if down.1 >= -1085 {
            (down.1 + 1085) * HIDDEN_BIT + rounded_at(down.0, down.2, 11)
        } else if down.1 >= -1139 {
            rounded_at(down.0, down.2, (-1074 - down.1) as nat) as int
        } else {
            0
        };
        with_sign(
            negative,
            if size >= INFINITY_BITS {
                INFINITY_BITS
            } else {
                size as u64
            },
        )
    }
}

/// `m` doubled `k` times.
pub open spec fn scaled(m: nat, k: nat) -> nat
    decreases k,
{
    if k == 0 {
        m
    } else {
        scaled(2 * m, (k - 1) as nat)
    }
}

/// The product of two numbers.
pub open spec fn double_product(a: u64, b: u64) -> u64 {
    let negative = is_negative(a) != is_negative(b);
    if is_nan(a) || is_nan(b) {
        NAN_BITS
    } else if is_infinite(a) || is_infinite(b) {
        if is_zero(a) || is_zero(b) {
            NAN_BITS
        } else {
            with_sign(negative, INFINITY_BITS)
        }
    } else {
        packed(negative, mantissa(a) * mantissa(b), exponent(a) + exponent(b), false)
    }
}

/// The quotient of two numbers. The significand of the dividend is doubled
/// to 127 binary digits before the division, so that the whole quotient
/// has more digits than a double keeps, and the remainder only says
/// whether the quotient is exact.
pub open spec fn double_quotient(a: u64, b: u64) -> u64 {
    let negative = is_negative(a) != is_negative(b);
    if is_nan(a) || is_nan(b) {
        NAN_BITS
    } else if is_infinite(a) {
        if is_infinite(b) {
            NAN_BITS
        } else {
            with_sign(negative, INFINITY_BITS)
        }
    } else if is_infinite(b) {
        with_sign(negative, 0)
    } else if is_zero(b) {
        if is_zero(a) {
            NAN_BITS
        } else {
            with_sign(negative, INFINITY_BITS)
        }
    } else if is_zero(a) {
        with_sign(negative, 0)
    } else {
        let wide = raised(mantissa(a), exponent(a), WIDE as nat);
        packed(
            negative,
            wide.0 / mantissa(b),
            wide.1 - exponent(b),
            wide.0 % mantissa(b) != 0,
        )
    }
}

/// The sum of two finite numbers that are not zero, `hi` with the power of
/// two that is not the smaller one. More than 64 powers apart the smaller
/// number is below a thousandth of the last digit of the larger one, which
/// is then the sum; else both are written over the smaller power and added
/// as whole numbers.
pub open spec fn aligned_sum(hi: u64, lo: u64) -> u64 {
    let apart = exponent(hi) - exponent(lo);
    let x = scaled(mantissa(hi), apart as nat);
    let y = mantissa(lo);
    if apart > 64 {
        hi
    } else if is_negative(hi) == is_negative(lo) {
        packed(is_negative(hi), x + y, exponent(lo), false)
    } else if x > y {
        packed(is_negative(hi), (x - y) as nat, exponent(lo), false)
    } else if x < y {
        packed(is_negative(lo), (y - x) as nat, exponent(lo), false)
    } else {
        0
    }
}

/// The sum of two numbers.
pub open spec fn double_sum(a: u64, b: u64) -> u64 {
    if is_nan(a) || is_nan(b) {
        NAN_BITS
    } else if is_infinite(a) {
        if is_infinite(b) && is_negative(a) != is_negative(b) {
            NAN_BITS
        } else {
            a
        }
    } else if is_infinite(b) {
        b
    } else if is_zero(a) {
        if is_zero(b) {
            with_sign(is_negative(a) && is_negative(b), 0)
        } else {
            b
        }
    } else if is_zero(b) {
        a
    } else if exponent(a) >= exponent(b) {
        aligned_sum(a, b)
    } else {
        aligned_sum(b, a)
    }
}

/// The difference of two numbers: the sum of the first and the second with
/// its sign turned.
pub open spec fn double_difference(a: u64, b: u64) -> u64 {
    double_sum(a, negated(b))
}

fn signed_bits(negative: bool, size: u64) -> (bits: u64)
    requires
        size < SIGN_BIT,
    ensures
        bits == with_sign(negative, size),
{
    if negative {
        SIGN_BIT + size
    } else {
        size
    }
}

fn significand_of(bits: u64) -> (m: u64)
    ensures
        m == mantissa(bits),
        m < 2 * HIDDEN_BIT,
{
    let a = magnitude_of(bits);
    if a / HIDDEN_BIT == 0 {
        a % HIDDEN_BIT
    } else {
        HIDDEN_BIT + a % HIDDEN_BIT
    }
}

fn exponent_of(bits: u64) -> (q: i128)
    ensures
        q == exponent(bits),
        -1074 <= q <= 972,
{
    let a = magnitude_of(bits);
    let e = a / HIDDEN_BIT;
    assert(e <= 2047) by (bit_vector)
        requires
            e == a / 0x0010_0000_0000_0000u64,
            a < 0x8000_0000_0000_0000u64,
    ;
    if e == 0 {
        -1074
    } else {
        e as i128 - 1075
    }
}

fn raise(m: u128, q: i128, floor: u128) -> (r: (u128, i128))
    requires
        floor <= WIDE,
        -0x4000_0000_0000_0000_0000_0001_0000_0000 <= q <= 0x1_0000_0000,
        q >= -0x1_0000_0000 || floor <= TOP,
    ensures
        (r.0 as nat, r.1 as int) == raised(m as nat, q as int, floor as nat),
        m < floor ==> r.0 < 2 * floor,
        m >= floor ==> r.0 == m,
        m > 0 ==> r.0 >= floor,
        r.0 == 0 <==> m == 0,
        q - floor <= r.1 <= q,
{
    let mut x = m;
    let mut e = q;
    while x != 0 && x < floor
        invariant
            floor <= WIDE,
            raised(m as nat, q as int, floor as nat) == raised(x as nat, e as int, floor as nat),
            x == 0 <==> m == 0,
            m < floor ==> x < 2 * floor,
            m >= floor ==> x == m,
            e <= q,
            e >= q - floor,
            e + x >= q + m,
            -0x4000_0000_0000_0000_0000_0001_0000_0000 <= q <= 0x1_0000_0000,
            q >= -0x1_0000_0000 || floor <= TOP,
        decreases
                if x < floor {
                    floor - x
                } else {
                    0
                },
    {
        x = x * 2;
        e = e - 1;
    }
    (x, e)
}

fn lower(m: u128, q: i128, sticky: bool) -> (r: (u64, i128, bool))
    requires
        m < 2 * WIDE,
        -0x6000_0000_0000_0000_0000_0000_0000_0000 <= q <= 0x1_0000_0000,
    ensures
        (r.0 as nat, r.1 as int, r.2) == lowered(m as nat, q as int, sticky),
        m >= TOP ==> r.0 >= TOP,
        q <= r.1,
{
    let mut x = m;
    let mut e = q;
    let mut s = sticky;
    while x >= LIMIT
        invariant
            lowered(m as nat, q as int, sticky) == lowered(x as nat, e as int, s),
            m >= TOP ==> x >= TOP,
            m < 2 * WIDE,
            q <= e,
            e + x <= q + m,
            -0x6000_0000_0000_0000_0000_0000_0000_0000 <= q <= 0x1_0000_0000,
        decreases x,
    {
        s = s || x % 2 == 1;
        x = x / 2;
        e = e + 1;
    }
    (x as u64, e, s)
}

fn halve(m: u64, sticky: bool, k: u64) -> (r: (u64, bool))
    ensures
        (r.0 as nat, r.1) == halved(m as nat, sticky, k as nat),
        r.0 <= m,
{
    let mut x = m;
    let mut s = sticky;
    let mut i: u64 = 0;
    while i < k
        invariant
            0 <= i <= k,
            x <= m,
            halved(m as nat, sticky, k as nat) == halved(x as nat, s, (k - i) as nat),
        decreases k - i,
    {
        s = s || x % 2 == 1;
        x = x / 2;
        i += 1;
    }
    (x, s)
}

fn round_at(m: u64, sticky: bool, k: u64) -> (r: u64)
    requires
        k >= 1,
    ensures
        r == rounded_at(m as nat, sticky, k as nat),
        r <= m / 2 + 1,
{
    let cut = halve(m, sticky, k - 1);
    let kept = cut.0 / 2;
    if cut.0 % 2 == 1 && (cut.1 || kept % 2 == 1) {
        kept + 1
    } else {
        kept
    }
}

/// The double nearest to `m * 2^q`, or to a value a little above it if
/// `sticky`.
pub fn pack(negative: bool, m: u128, q: i128, sticky: bool) -> (bits: u64)
    requires
        m < 2 * WIDE,
        -0x4000_0000_0000_0000_0000_0001_0000_0000 <= q <= 0x1_0000_0000,
    ensures
        bits == packed(negative, m as nat, q as int, sticky),
{
    if m == 0 {
        return signed_bits(negative, 0);
    }
    let up = raise(m, q, TOP);
    let down = lower(up.0, up.1, sticky);
    let e = down.1;
    let size: u64 = if e > 960 {
        INFINITY_BITS
    } else if e >= -1085 {
        let kept = round_at(down.0, down.2, 11);
        let field: u64 = (e + 1085) as u64;
        assert(field <= 2045);
        assert(kept <= 0x8000_0000_0000_0000);
        assert(field * HIDDEN_BIT <= 2045 * HIDDEN_BIT) by (nonlinear_arith)
            requires
                field <= 2045,
        ;
        field * HIDDEN_BIT + kept
    } else if e >= -1139 {
        round_at(down.0, down.2, (-1074 - e) as u64)
    } else {
        0
    };
    if size >= INFINITY_BITS {
        signed_bits(negative, INFINITY_BITS)
    } else {
        signed_bits(negative, size)
    }
}

fn is_infinity(bits: u64) -> (r: bool)
    ensures
        r == is_infinite(bits),
{
    magnitude_of(bits) == INFINITY_BITS
}

/// The product of two numbers.
pub fn double_mul(a: u64, b: u64) -> (r: u64)
    ensures
        r == double_product(a, b),
{
    let negative = (a >= SIGN_BIT) != (b >= SIGN_BIT);
    if crate::number::number_is_nan(a) || crate::number::number_is_nan(b) {
        NAN_BITS
    } else if is_infinity(a) || is_infinity(b) {
        if crate::number::number_is_zero(a) || crate::number::number_is_zero(b) {
            NAN_BITS
        } else {
            signed_bits(negative, INFINITY_BITS)
        }
    } else {
        let x = significand_of(a) as u128;
        let y = significand_of(b) as u128;
        assert(x * y < 0x400_0000_0000_0000_0000_0000_0000) by (nonlinear_arith)
            requires
                x < 0x20_0000_0000_0000,
                y < 0x20_0000_0000_0000,
        ;
        pack(negative, x * y, exponent_of(a) + exponent_of(b), false)
    }
}

/// The quotient of two numbers.
pub fn double_div(a: u64, b: u64) -> (r: u64)
    ensures
        r == double_quotient(a, b),
{
    let negative = (a >= SIGN_BIT) != (b >= SIGN_BIT);
    if crate::number::number_is_nan(a) || crate::number::number_is_nan(b) {
        NAN_BITS
    } else if is_infinity(a) {
        if is_infinity(b) {
            NAN_BITS
        } else {
            signed_bits(negative, INFINITY_BITS)
        }
    } else if is_infinity(b) {
        signed_bits(negative, 0)
    } else if crate::number::number_is_zero(b) {
        if crate::number::number_is_zero(a) {
            NAN_BITS
        } else {
            signed_bits(negative, INFINITY_BITS)
        }
    } else if crate::number::number_is_zero(a) {
        signed_bits(negative, 0)
    } else {
        let y = significand_of(b) as u128;
        let wide = raise(significand_of(a) as u128, exponent_of(a), WIDE);
        pack(negative, wide.0 / y, wide.1 - exponent_of(b), wide.0 % y != 0)
    }
}

fn scale(m: u64, k: u64) -> (x: u128)
    requires
        m < 2 * HIDDEN_BIT,
        k <= 64,
    ensures
        x == scaled(m as nat, k as nat),
        x < 0x20_0000_0000_0000_0000_0000_0000_0000,
        m > 0 ==> x > 0,
{
    let mut x: u128 = m as u128;
    let mut i: u64 = 0;
    proof {
        lemma2_to64();
    }
    while i < k
        invariant
            0 <= i <= k <= 64,
            m < 2 * HIDDEN_BIT,
            scaled(m as nat, k as nat) == scaled(x as nat, (k - i) as nat),
            x == m * pow2(i as nat),
            pow2(i as nat) <= 0x1_0000_0000_0000_0000,
        decreases k - i,
    {
        proof {
            lemma_pow2_unfold((i + 1) as nat);
            lemma2_to64();
            lemma2_to64_rest();
            if i + 1 < 64 {
                crate::number::lemma_pow2_bound((i + 1) as nat);
            }
            let p = pow2(i as nat);
            assert(m * p < 0x20_0000_0000_0000_0000_0000_0000_0000) by (nonlinear_arith)
                requires
                    m < 0x20_0000_0000_0000,
                    p <= 0x1_0000_0000_0000_0000,
            ;
            assert(2 * (m * p) == m * (2 * p)) by (nonlinear_arith);
        }
        x = x * 2;
        i += 1;
    }
    proof {
        let p = pow2(k as nat);
        assert(m * p < 0x20_0000_0000_0000_0000_0000_0000_0000) by (nonlinear_arith)
            requires
                m < 0x20_0000_0000_0000,
                p <= 0x1_0000_0000_0000_0000,
        ;
        if m > 0 {
            vstd::arithmetic::power2::lemma_pow2_pos(k as nat);
            assert(m * p > 0) by (nonlinear_arith)
                requires
                    m > 0,
                    p > 0,
            ;
        }
    }
    x
}

fn aligned_add(hi: u64, lo: u64) -> (r: u64)
    requires
        !is_nan(hi),
        !is_nan(lo),
        !is_infinite(hi),
        !is_infinite(lo),
        exponent(hi) >= exponent(lo),
    ensures
        r == aligned_sum(hi, lo),
{
    let qh = exponent_of(hi);
    let ql = exponent_of(lo);
    let apart = qh - ql;
    if apart > 64 {
        return hi;
    }
    let x = scale(significand_of(hi), apart as u64);
    let y = significand_of(lo) as u128;
    let hi_negative = hi >= SIGN_BIT;
    let lo_negative = lo >= SIGN_BIT;
    if hi_negative == lo_negative {
        pack(hi_negative, x + y, ql, false)
    } else if x > y {
        pack(hi_negative, x - y, ql, false)
    } else if x < y {
        pack(lo_negative, y - x, ql, false)
    } else {
        0
    }
}

/// The sum of two numbers.
pub fn double_add(a: u64, b: u64) -> (r: u64)
    ensures
        r == double_sum(a, b),
{
    if crate::number::number_is_nan(a) || crate::number::number_is_nan(b) {
        NAN_BITS
    } else if is_infinity(a) {
        if is_infinity(b) && (a >= SIGN_BIT) != (b >= SIGN_BIT) {
            NAN_BITS
        } else {
            a
        }
    } else if is_infinity(b) {
        b
    } else if crate::number::number_is_zero(a) {
        if crate::number::number_is_zero(b) {
            signed_bits(a >= SIGN_BIT && b >= SIGN_BIT, 0)
        } else {
            b
        }
    } else if crate::number::number_is_zero(b) {
        a
    } else if exponent_of(a) >= exponent_of(b) {
        aligned_add(a, b)
    } else {
        aligned_add(b, a)
    }
}

/// The difference of two numbers.
pub fn double_sub(a: u64, b: u64) -> (r: u64)
    ensures
        r == double_difference(a, b),
{
    double_add(a, negate(b))
}

} // verus!
