//! Numbers of the language are IEEE-754 double-precision values, carried by
//! their 64-bit pattern: one sign bit, eleven exponent bits, fifty-two
//! fraction bits. This module reads and builds such patterns with integer
//! arithmetic only.

use vstd::arithmetic::power2::{lemma2_to64, lemma2_to64_rest, lemma_pow2_pos, lemma_pow2_unfold, pow2};
use vstd::prelude::*;

verus! {

/// The sign bit.
pub const SIGN_BIT: u64 = 0x8000_0000_0000_0000;

/// The weight of the lowest exponent bit; also the hidden bit of a
/// significand.
pub const HIDDEN_BIT: u64 = 0x0010_0000_0000_0000;

/// The pattern of positive infinity; every larger magnitude is a NaN.
pub const INFINITY_BITS: u64 = 0x7FF0_0000_0000_0000;

/// The pattern without its sign bit.
pub open spec fn magnitude(bits: u64) -> u64 {
    if bits >= SIGN_BIT {
        (bits - SIGN_BIT) as u64
    } else {
        bits
    }
}

pub open spec fn is_negative(bits: u64) -> bool {
    bits >= SIGN_BIT
}

pub open spec fn is_nan(bits: u64) -> bool {
    magnitude(bits) > INFINITY_BITS
}

/// Positive or negative zero.
pub open spec fn is_zero(bits: u64) -> bool {
    magnitude(bits) == 0
}

/// Equality of two numbers: a NaN equals nothing, the two zeros are equal,
/// and otherwise the patterns must agree.
pub open spec fn same_number(a: u64, b: u64) -> bool {
    &&& !is_nan(a)
    &&& !is_nan(b)
    &&& (a == b || (is_zero(a) && is_zero(b)))
}

/// Strict order of two numbers: false as soon as one is a NaN; the two zeros
/// are not ordered; negative numbers order against their magnitudes.
pub open spec fn less_number(a: u64, b: u64) -> bool {
    &&& !is_nan(a)
    &&& !is_nan(b)
    &&& !(is_zero(a) && is_zero(b))
    &&& if is_negative(a) {
        !is_negative(b) || magnitude(a) > magnitude(b)
    } else {
        !is_negative(b) && magnitude(a) < magnitude(b)
    }
}

/// The number with its sign flipped.
pub open spec fn negated(bits: u64) -> u64 {
    if bits >= SIGN_BIT {
        (bits - SIGN_BIT) as u64
    } else {
        (bits + SIGN_BIT) as u64
    }
}

pub fn magnitude_of(bits: u64) -> (m: u64)
    ensures
        m == magnitude(bits),
{
    if bits >= SIGN_BIT {
        bits - SIGN_BIT
    } else {
        bits
    }
}

pub fn number_is_nan(bits: u64) -> (r: bool)
    ensures
        r == is_nan(bits),
{
    magnitude_of(bits) > INFINITY_BITS
}

pub fn number_is_zero(bits: u64) -> (r: bool)
    ensures
        r == is_zero(bits),
{
    magnitude_of(bits) == 0
}

pub fn numbers_equal(a: u64, b: u64) -> (r: bool)
    ensures
        r == same_number(a, b),
{
    !number_is_nan(a) && !number_is_nan(b) && (a == b || (number_is_zero(a) && number_is_zero(b)))
}

pub fn number_less(a: u64, b: u64) -> (r: bool)
    ensures
        r == less_number(a, b),
{
    if number_is_nan(a) || number_is_nan(b) {
        return false;
    }
    if number_is_zero(a) && number_is_zero(b) {
        return false;
    }
    if a >= SIGN_BIT {
        b < SIGN_BIT || magnitude_of(a) > magnitude_of(b)
    } else {
        b < SIGN_BIT && magnitude_of(a) < magnitude_of(b)
    }
}

pub fn negate(bits: u64) -> (r: u64)
    ensures
        r == negated(bits),
{
    if bits >= SIGN_BIT {
        bits - SIGN_BIT
    } else {
        bits + SIGN_BIT
    }
}

/// The number of binary digits of `n`; zero has none.
pub open spec fn bit_length(n: nat) -> nat
    decreases n,
{
    if n == 0 {
        0
    } else {
        1 + bit_length(n / 2)
    }
}

/// `n / d` rounded to the nearest whole number, a tie going to the even
/// neighbour.
pub open spec fn round_half_even(n: nat, d: nat) -> nat
    recommends
        d > 0,
{
    let q = n / d;
    let r = n % d;
    if 2 * r > d || (2 * r == d && q % 2 == 1) {
        q + 1
    } else {
        q
    }
}

/// The 53-bit significand of the double nearest to `n > 0`: `n` scaled so
/// that its leading digit stands on the hidden bit, rounded half-to-even
/// where digits are lost. Rounding up may carry into bit 53.
pub open spec fn significand(n: nat) -> nat
    recommends
        n > 0,
{
    let top = (bit_length(n) - 1) as nat;
    if top <= 52 {
        n * pow2((52 - top) as nat)
    } else {
        round_half_even(n, pow2((top - 52) as nat))
    }
}

/// The pattern of the double nearest to the whole number `n` (ties to even).
/// The biased exponent of `n` is 1023 plus the position of its leading digit;
/// a carry out of the significand lands in the exponent field.
pub open spec fn bits_of_nat(n: nat) -> u64
    recommends
        n <= u64::MAX,
{
    if n == 0 {
        0
    } else {
        ((1021 + bit_length(n)) * HIDDEN_BIT + significand(n)) as u64
    }
}

/// A number with `bit_length(n) == b > 0` lies in `[2^(b-1), 2^b)`.
pub proof fn lemma_bit_length_bounds(n: nat)
    requires
        n > 0,
    ensures
        pow2((bit_length(n) - 1) as nat) <= n < pow2(bit_length(n)),
    decreases n,
{
    lemma2_to64();
    if n == 1 {
        assert(bit_length(1) == 1 + bit_length(0));
    } else {
        lemma_bit_length_bounds(n / 2);
        let b = bit_length(n / 2);
        lemma_pow2_unfold(b);
        lemma_pow2_unfold(bit_length(n));
    }
}

/// A `u64` has at most 64 binary digits.
pub proof fn lemma_bit_length_u64(n: nat)
    requires
        n <= u64::MAX,
    ensures
        bit_length(n) <= 64,
{
    if n > 0 {
        lemma_bit_length_bounds(n);
        lemma2_to64();
        lemma2_to64_rest();
        let top = (bit_length(n) - 1) as nat;
        if top > 64 {
            vstd::arithmetic::power2::lemma_pow2_strictly_increases(64, top);
        }
    }
}

fn pow2_u64(e: u64) -> (p: u64)
    requires
        e < 64,
    ensures
        p == pow2(e as nat),
{
    let mut p: u64 = 1;
    let mut i: u64 = 0;
    proof {
        lemma2_to64();
    }
    while i < e
        invariant
            0 <= i <= e < 64,
            p == pow2(i as nat),
        decreases e - i,
    {
        proof {
            lemma_pow2_unfold((i + 1) as nat);
            lemma_pow2_bound((i + 1) as nat);
        }
        p = p * 2;
        i += 1;
    }
    p
}

/// Powers of two below `2^64` fit a `u64`.
pub proof fn lemma_pow2_bound(e: nat)
    requires
        e < 64,
    ensures
        0 < pow2(e) <= 0x8000_0000_0000_0000,
    decreases e,
{
    lemma2_to64();
    lemma2_to64_rest();
    lemma_pow2_pos(e);
    if e > 0 {
        lemma_pow2_bound((e - 1) as nat);
        lemma_pow2_unfold(e);
        if e == 63 {
        } else {
            lemma_pow2_unfold(e + 1);
            lemma_pow2_bound_step(e);
        }
    }
}

proof fn lemma_pow2_bound_step(e: nat)
    requires
        e < 63,
    ensures
        pow2(e) <= 0x4000_0000_0000_0000,
    decreases 63 - e,
{
    lemma2_to64();
    lemma2_to64_rest();
    if e < 62 {
        lemma_pow2_bound_step(e + 1);
        lemma_pow2_unfold(e + 1);
    }
}

/// The double nearest to the whole number `n`.
pub fn number_from_u64(n: u64) -> (bits: u64)
    ensures
        bits == bits_of_nat(n as nat),
        !is_nan(bits),
        !is_negative(bits),
{
    if n == 0 {
        return 0;
    }
    let mut top: u64 = 0;
    let mut x: u64 = n;
    proof {
        lemma_bit_length_u64(n as nat);
    }
    while x > 1
        invariant
            x > 0,
            top + bit_length(x as nat) == bit_length(n as nat),
            top <= 64,
            bit_length(n as nat) <= 64,
        decreases x,
    {
        x = x / 2;
        top += 1;
    }
    proof {
        assert(bit_length(1) == 1 + bit_length(0));
        lemma_bit_length_bounds(n as nat);
        lemma2_to64();
        lemma2_to64_rest();
    }
    assert(top + 1 == bit_length(n as nat));
    assert(pow2(top as nat) <= n < pow2((top + 1) as nat));
    let sig: u64;
    if top <= 52 {
        let scale = pow2_u64(52 - top);
        proof {
            vstd::arithmetic::power2::lemma_pow2_adds((top + 1) as nat, (52 - top) as nat);
            vstd::arithmetic::power2::lemma_pow2_adds(top as nat, (52 - top) as nat);
            assert(n * scale < pow2((top + 1) as nat) * scale) by (nonlinear_arith)
                requires
                    n < pow2((top + 1) as nat),
                    scale > 0,
            ;
            assert(n * scale >= pow2(top as nat) * scale) by (nonlinear_arith)
                requires
                    n >= pow2(top as nat),
                    scale > 0,
            ;
        }
        sig = n * scale;
    } else {
        let d = pow2_u64(top - 52);
        let q = n / d;
        let r = n % d;
        proof {
            lemma_pow2_bound((top - 52) as nat);
            vstd::arithmetic::power2::lemma_pow2_adds(53, (top - 52) as nat);
            vstd::arithmetic::power2::lemma_pow2_adds(52, (top - 52) as nat);
            assert(q < pow2(53)) by (nonlinear_arith)
                requires
                    n < pow2(53) * d,
                    d > 0,
                    q == n / d,
            ;
            assert(q >= pow2(52)) by (nonlinear_arith)
                requires
                    n >= pow2(52) * d,
                    d > 0,
                    q == n / d,
            ;
        }
        if 2 * r > d || (2 * r == d && q % 2 == 1) {
            sig = q + 1;
        } else {
            sig = q;
        }
    }
    assert(sig == significand(n as nat));
    assert(pow2(52) <= sig <= pow2(53));
    (1022 + top) * HIDDEN_BIT + sig
}

/// The largest magnitude up to which every whole number is a double: 2^53.
pub const MAX_WHOLE: u64 = 0x0020_0000_0000_0000;

/// The magnitude of the number if it is a whole number of at most 2^53:
/// zero, or a significand that its exponent shifts without losing a digit.
pub open spec fn whole_magnitude(bits: u64) -> Option<nat> {
    let a = magnitude(bits);
    let e = a / HIDDEN_BIT;
    let f = a % HIDDEN_BIT;
    if a == 0 {
        Some(0)
    } else if e < 1023 || e > 1076 {
        None
    } else if e == 1076 {
        if f == 0 {
            Some(MAX_WHOLE as nat)
        } else {
            None
        }
    } else {
        let scale = pow2((1075 - e) as nat);
        let significand = (HIDDEN_BIT + f) as nat;
        if significand % scale == 0 {
            Some(significand / scale)
        } else {
            None
        }
    }
}

/// The pattern of the whole number of magnitude `m` with the given sign.
pub open spec fn whole_bits(negative: bool, m: nat) -> u64
    recommends
        m <= MAX_WHOLE,
{
    if negative {
        (SIGN_BIT + bits_of_nat(m)) as u64
    } else {
        bits_of_nat(m)
    }
}

/// The magnitude of the number if it is a whole number of at most 2^53.
pub fn number_whole(bits: u64) -> (r: Option<u64>)
    ensures
        match r {
            Some(m) => whole_magnitude(bits) == Some(m as nat) && m <= MAX_WHOLE,
            None => whole_magnitude(bits) is None,
        },
{
    let a = magnitude_of(bits);
    let e = a / HIDDEN_BIT;
    let f = a % HIDDEN_BIT;
    if a == 0 {
        Some(0)
    } else if e < 1023 || e > 1076 {
        None
    } else if e == 1076 {
        if f == 0 {
            Some(MAX_WHOLE)
        } else {
            None
        }
    } else {
        let scale = pow2_u64(1075 - e);
        let significand = HIDDEN_BIT + f;
        proof {
            lemma_pow2_pos((1075 - e) as nat);
        }
        if significand % scale == 0 {
            Some(significand / scale)
        } else {
            None
        }
    }
}

/// The pattern of the whole number of magnitude `m` with the given sign.
pub fn number_from_whole(negative: bool, m: u64) -> (bits: u64)
    ensures
        bits == whole_bits(negative, m as nat),
{
    let plain = number_from_u64(m);
    if negative {
        SIGN_BIT + plain
    } else {
        plain
    }
}

/// The double nearest to the whole number `n`.
pub fn number_from_i64(n: i64) -> (bits: u64)
    ensures
        bits == whole_bits(n < 0, (if n < 0 {
            -(n as int)
        } else {
            n as int
        }) as nat),
{
    if n < 0 {
        let m: u64 = if n == i64::MIN {
            0x8000_0000_0000_0000
        } else {
            (-n) as u64
        };
        number_from_whole(true, m)
    } else {
        number_from_whole(false, n as u64)
    }
}

/// The index that the number stands for: its whole part, zero for a NaN or
/// a negative number, the largest `usize` for anything above it.
pub open spec fn index_of(bits: u64) -> usize {
    let a = magnitude(bits);
    let e = a / HIDDEN_BIT;
    let f = a % HIDDEN_BIT;
    if is_nan(bits) || is_negative(bits) || e < 1023 {
        0
    } else if e >= 1087 {
        usize::MAX
    } else {
        let significand = (HIDDEN_BIT + f) as nat;
        let value = if e >= 1075 {
            significand * pow2((e - 1075) as nat)
        } else {
            significand / pow2((1075 - e) as nat)
        };
        if value > usize::MAX {
            usize::MAX
        } else {
            value as usize
        }
    }
}

/// The index that the number stands for.
pub fn number_to_index(bits: u64) -> (i: usize)
    ensures
        i == index_of(bits),
{
    let a = magnitude_of(bits);
    let e = a / HIDDEN_BIT;
    let f = a % HIDDEN_BIT;
    if a > INFINITY_BITS || bits >= SIGN_BIT || e < 1023 {
        0
    } else if e >= 1087 {
        usize::MAX
    } else {
        let significand = HIDDEN_BIT + f;
        let value: u64 = if e >= 1075 {
            let scale = pow2_u64(e - 1075);
            proof {
                lemma2_to64();
                lemma_pow2_bound((e - 1075) as nat);
                assert(pow2((e - 1075) as nat) <= pow2(11)) by {
                    if e - 1075 < 11 {
                        vstd::arithmetic::power2::lemma_pow2_strictly_increases(
                            (e - 1075) as nat,
                            11,
                        );
                    }
                }
                assert(significand * scale <= 0x001F_FFFF_FFFF_FFFF * 2048) by (nonlinear_arith)
                    requires
                        significand <= 0x001F_FFFF_FFFF_FFFF,
                        scale <= 2048,
                ;
            }
            significand * scale
        } else {
            let scale = pow2_u64(1075 - e);
            proof {
                lemma_pow2_pos((1075 - e) as nat);
            }
            significand / scale
        };
        if value > usize::MAX as u64 {
            usize::MAX
        } else {
            value as usize
        }
    }
}

/// Building and reading agree: the pattern built for a whole number of at
/// most 2^53 reads back as that number with that sign.
pub proof fn lemma_whole_round_trip(negative: bool, m: nat)
    requires
        m <= MAX_WHOLE,
    ensures
        whole_magnitude(whole_bits(negative, m)) == Some(m),
        is_negative(whole_bits(negative, m)) == negative,
        !is_nan(whole_bits(negative, m)),
{
    lemma2_to64();
    lemma2_to64_rest();
    if m > 0 {
        lemma_bit_length_bounds(m);
        let b = bit_length(m);
        let top = (b - 1) as nat;
        if top > 53 {
            vstd::arithmetic::power2::lemma_pow2_strictly_increases(53, top);
        }
        assert(top <= 53);
        let h = HIDDEN_BIT as int;
        if top <= 52 {
            let s = (52 - top) as nat;
            let scale = pow2(s) as int;
            lemma_pow2_pos(s);
            vstd::arithmetic::power2::lemma_pow2_adds(top, s);
            vstd::arithmetic::power2::lemma_pow2_adds(top + 1, s);
            let sig = m * scale;
            assert(sig == significand(m));
            assert(pow2(top) * scale <= sig) by (nonlinear_arith)
                requires
                    pow2(top) <= m,
                    scale > 0,
                    sig == m * scale,
            ;
            assert(sig < pow2(top + 1) * scale) by (nonlinear_arith)
                requires
                    m < pow2(top + 1),
                    scale > 0,
                    sig == m * scale,
            ;
            assert(h <= sig < 2 * h);
            let f = sig - h;
            let plain = bits_of_nat(m);
            assert(plain == (1023 + top) * h + f) by (nonlinear_arith)
                requires
                    plain == (1021 + b) * h + sig,
                    b == top + 1,
                    f == sig - h,
            ;
            assert(plain < SIGN_BIT) by (nonlinear_arith)
                requires
                    plain == (1023 + top) * h + f,
                    top <= 52,
                    f < h,
                    h == 0x0010_0000_0000_0000,
            ;
            vstd::arithmetic::div_mod::lemma_fundamental_div_mod_converse(
                plain as int,
                h,
                (1023 + top) as int,
                f,
            );
            vstd::arithmetic::div_mod::lemma_div_multiples_vanish(m as int, scale);
            vstd::arithmetic::div_mod::lemma_mod_multiples_basic(m as int, scale);
            assert(scale * m == m * scale) by (nonlinear_arith);
            assert(magnitude(whole_bits(negative, m)) == plain);
        } else {
            assert(top == 53);
            assert(m == MAX_WHOLE);
            vstd::arithmetic::power2::lemma_pow2_unfold(1);
            assert(pow2(1) == 2);
            assert(round_half_even(m, 2) == 0x0010_0000_0000_0000);
            let plain = bits_of_nat(m);
            assert(plain == 1076 * h);
            vstd::arithmetic::div_mod::lemma_fundamental_div_mod_converse(plain as int, h, 1076, 0);
            assert(magnitude(whole_bits(negative, m)) == plain);
        }
    }
}

/// The pattern of the double nearest to the fraction `n / d` (ties to
/// even), for a positive numerator and divisor below 2^64. Numerator and
/// divisor are scaled by powers of two until the quotient has 53 binary
/// digits; the rounded quotient is the significand, and the two scales give
/// the exponent.
pub open spec fn ratio_bits(n: nat, d: nat) -> u64
    recommends
        0 < n <= u64::MAX,
        0 < d <= u64::MAX,
{
    let shift = (127 - bit_length(n)) as nat;
    let scaled = n * pow2(shift);
    let drop = (bit_length(scaled / d) - 53) as nat;
    let rounded = round_half_even(scaled, d * pow2(drop));
    ((1074 + drop - shift) * HIDDEN_BIT + rounded) as u64
}

fn pow2_u128(e: u64) -> (p: u128)
    requires
        e < 128,
    ensures
        p == pow2(e as nat),
        p > 0,
{
    let mut p: u128 = 1;
    let mut i: u64 = 0;
    proof {
        lemma2_to64();
    }
    while i < e
        invariant
            0 <= i <= e < 128,
            p == pow2(i as nat),
            p > 0,
        decreases e - i,
    {
        proof {
            lemma_pow2_unfold((i + 1) as nat);
            lemma_pow2_below_128((i + 1) as nat);
        }
        p = p * 2;
        i += 1;
    }
    p
}

/// Powers of two below `2^128` fit a `u128`.
pub proof fn lemma_pow2_below_128(e: nat)
    requires
        e < 128,
    ensures
        0 < pow2(e) <= 0x8000_0000_0000_0000_0000_0000_0000_0000,
{
    lemma2_to64();
    lemma2_to64_rest();
    lemma_pow2_pos(e);
    if e < 127 {
        vstd::arithmetic::power2::lemma_pow2_strictly_increases(e, 127);
    }
    vstd::arithmetic::power2::lemma_pow2_adds(64, 63);
}

fn bit_length_u128(n: u128) -> (b: u64)
    ensures
        b == bit_length(n as nat),
        b <= 128,
{
    let mut b: u64 = 0;
    let mut x: u128 = n;
    proof {
        lemma_bit_length_u128(n as nat);
    }
    while x > 0
        invariant
            b + bit_length(x as nat) == bit_length(n as nat),
            bit_length(n as nat) <= 128,
        decreases x,
    {
        x = x / 2;
        b += 1;
    }
    b
}

/// A `u128` has at most 128 binary digits.
pub proof fn lemma_bit_length_u128(n: nat)
    requires
        n <= u128::MAX,
    ensures
        bit_length(n) <= 128,
{
    if n > 0 {
        lemma_bit_length_bounds(n);
        let top = (bit_length(n) - 1) as nat;
        if top >= 128 {
            lemma_pow2_below_128(127);
            vstd::arithmetic::power2::lemma_pow2_strictly_increases(127, top);
            lemma_pow2_unfold(128);
            if top > 128 {
                vstd::arithmetic::power2::lemma_pow2_strictly_increases(128, top);
            }
            vstd::arithmetic::power2::lemma_pow2_adds(64, 63);
            lemma2_to64_rest();
        }
    }
}

/// The double nearest to the fraction `n / d`.
pub fn number_from_ratio(n: u64, d: u64) -> (bits: u64)
    requires
        n > 0,
        d > 0,
    ensures
        bits == ratio_bits(n as nat, d as nat),
{
    let length = bit_length_u128(n as u128);
    proof {
        lemma_bit_length_bounds(n as nat);
        lemma_bit_length_u64(n as nat);
        lemma2_to64();
        lemma2_to64_rest();
    }
    let shift: u64 = 127 - length;
    let scale = pow2_u128(shift);
    proof {
        vstd::arithmetic::power2::lemma_pow2_adds(length as nat, shift as nat);
        vstd::arithmetic::power2::lemma_pow2_adds((length - 1) as nat, shift as nat);
        lemma_pow2_below_128(127);
        lemma_pow2_below_128(126);
        assert(n * scale < pow2(length as nat) * scale) by (nonlinear_arith)
            requires
                n < pow2(length as nat),
                scale > 0,
        ;
        assert(n * scale >= pow2((length - 1) as nat) * scale) by (nonlinear_arith)
            requires
                n >= pow2((length - 1) as nat),
                scale > 0,
        ;
    }
    let scaled: u128 = (n as u128) * scale;
    assert(pow2(126) <= scaled < pow2(127));
    let quotient: u128 = scaled / (d as u128);
    let rest: u128 = scaled % (d as u128);
    proof {
        vstd::arithmetic::power2::lemma_pow2_adds(62, 64);
        assert(quotient >= pow2(62)) by (nonlinear_arith)
            requires
                scaled >= pow2(62) * pow2(64),
                0 < d < pow2(64),
                quotient == scaled / (d as u128),
        ;
        lemma_bit_length_bounds(quotient as nat);
    }
    let digits = bit_length_u128(quotient);
    proof {
        if digits < 63 {
            vstd::arithmetic::power2::lemma_pow2_strictly_increases(digits as nat, 63);
            lemma_pow2_unfold(63);
        }
    }
    assert(digits >= 63);
    let drop: u64 = digits - 53;
    let unit = pow2_u128(drop);
    let q: u128 = quotient / unit;
    let low: u128 = quotient % unit;
    let half: u128 = unit / 2;
    proof {
        lemma_pow2_unfold(drop as nat);
        vstd::arithmetic::power2::lemma_pow2_adds(52, drop as nat);
        vstd::arithmetic::power2::lemma_pow2_adds(53, drop as nat);
        assert(unit == 2 * half);
        assert(q >= pow2(52)) by (nonlinear_arith)
            requires
                quotient >= pow2(52) * unit,
                unit > 0,
                q == quotient / unit,
        ;
        assert(q < pow2(53)) by (nonlinear_arith)
            requires
                quotient < pow2(53) * unit,
                unit > 0,
                q == quotient / unit,
        ;
        let whole = (d as int) * (unit as int);
        let part = (low as int) * (d as int) + (rest as int);
        vstd::arithmetic::div_mod::lemma_fundamental_div_mod(scaled as int, d as int);
        vstd::arithmetic::div_mod::lemma_fundamental_div_mod(quotient as int, unit as int);
        assert(scaled == quotient * d + rest) by (nonlinear_arith)
            requires
                scaled == d * (scaled as int / d as int) + (scaled as int % d as int),
                quotient == scaled as int / d as int,
                rest == scaled as int % d as int,
        ;
        assert(quotient == q * unit + low) by (nonlinear_arith)
            requires
                quotient == unit * (quotient as int / unit as int) + (quotient as int
                    % unit as int),
                q == quotient as int / unit as int,
                low == quotient as int % unit as int,
        ;
        assert(scaled == q * whole + part && 0 <= part < whole && (2 * part > whole <==> (low > half
            || (low == half && rest > 0))) && (2 * part == whole <==> (low == half && rest == 0)))
            by (nonlinear_arith)
            requires
                scaled == quotient * d + rest,
                quotient == q * unit + low,
                0 <= rest < d,
                0 <= low < unit,
                unit == 2 * half,
                whole == (d as int) * (unit as int),
                part == (low as int) * (d as int) + (rest as int),
        ;
        vstd::arithmetic::div_mod::lemma_fundamental_div_mod_converse(
            scaled as int,
            whole,
            q as int,
            part,
        );
        assert(d * pow2(drop as nat) == whole);
    }
    let up = low > half || (low == half && (rest > 0 || q % 2 == 1));
    let rounded: u64 = if up {
        (q + 1) as u64
    } else {
        q as u64
    };
    assert(rounded == round_half_even(scaled as nat, (d * pow2(drop as nat)) as nat));
    (1074 + drop - shift) * HIDDEN_BIT + rounded
}

/// Ten to the power `k`.
pub open spec fn pow10(k: nat) -> nat
    decreases k,
{
    if k == 0 {
        1
    } else {
        10 * pow10((k - 1) as nat)
    }
}

/// The pattern of the double nearest to the decimal number `mantissa /
/// 10^scale`.
pub open spec fn decimal_bits(mantissa: nat, scale: nat) -> u64 {
    if mantissa == 0 {
        0
    } else {
        ratio_bits(mantissa, pow10(scale))
    }
}

/// The most fractional digits of a decimal number that is read.
pub const MAX_SCALE: u32 = 19;

/// Ten to a power of at most nineteen fits a `u64`.
pub proof fn lemma_pow10_bound(k: nat)
    requires
        k <= 19,
    ensures
        0 < pow10(k) <= 10_000_000_000_000_000_000,
    decreases k,
{
    reveal_with_fuel(pow10, 20);
}

/// The double nearest to the decimal number `mantissa / 10^scale`.
pub fn number_from_decimal(mantissa: u64, scale: u32) -> (bits: u64)
    requires
        scale <= MAX_SCALE,
    ensures
        bits == decimal_bits(mantissa as nat, scale as nat),
{
    if mantissa == 0 {
        return 0;
    }
    let mut divisor: u64 = 1;
    let mut i: u32 = 0;
    while i < scale
        invariant
            0 <= i <= scale <= MAX_SCALE,
            divisor == pow10(i as nat),
        decreases scale - i,
    {
        proof {
            lemma_pow10_bound((i + 1) as nat);
        }
        divisor = divisor * 10;
        i += 1;
    }
    proof {
        lemma_pow10_bound(scale as nat);
    }
    number_from_ratio(mantissa, divisor)
}

} // verus!
