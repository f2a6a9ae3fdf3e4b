//! The numeral of a double: the shortest decimal numeral that reads back as
//! the same double, and among several such the one nearest to it.
//!
//! A finite number `m * 2^q` and the two ends of the stretch of values that
//! round to it are written out exactly, as decimal digits over one common
//! number of decimal places. Digits are then cut from the low end as far as
//! the result, the cut number or the next above it, stays inside the
//! stretch. Numbers are sequences of decimal digits, lowest digit first.

use crate::double::{exponent, is_infinite, mantissa};
use crate::number::{is_nan, is_negative, magnitude_of, HIDDEN_BIT, INFINITY_BITS, SIGN_BIT};
use crate::text::{decimal, digit_char, push_decimal, push_text};
use vstd::prelude::*;

verus! {

/// The decimal digits of `n`, lowest first; none for zero.
pub open spec fn digits_of(n: nat) -> Seq<u8>
    decreases n,
{
    if n == 0 {
        Seq::empty()
    } else {
        seq![(n % 10) as u8] + digits_of(n / 10)
    }
}

/// The digits of the number `ds` times `c` plus `carry`.
pub open spec fn times(ds: Seq<u8>, c: nat, carry: nat) -> Seq<u8>
    decreases ds.len(),
{
    if ds.len() == 0 {
        digits_of(carry)
    } else {
        seq![((ds[0] * c + carry) % 10) as u8] + times(
            ds.drop_first(),
            c,
            ((ds[0] * c + carry) / 10) as nat,
        )
    }
}

/// The digits of the number `ds` times `c^k`.
pub open spec fn powered(ds: Seq<u8>, c: nat, k: nat) -> Seq<u8>
    decreases k,
{
    if k == 0 {
        ds
    } else {
        powered(times(ds, c, 0), c, (k - 1) as nat)
    }
}

/// The decimal places that `2^e` needs: none for a whole number, `-e` for a
/// fraction.
pub open spec fn places(e: int) -> nat {
    if e >= 0 {
        0
    } else {
        (-e) as nat
    }
}

/// The digits of `a * 2^e` over `places(e)` decimal places: `a * 2^e` as it
/// is, or `a * 5^(-e)`, which is `a * 2^e * 10^(-e)`.
pub open spec fn expansion(a: nat, e: int) -> Seq<u8> {
    if e >= 0 {
        powered(digits_of(a), 2, e as nat)
    } else {
        powered(digits_of(a), 5, (-e) as nat)
    }
}

/// The number `ds` written with `w` digits, zeros above.
pub open spec fn padded(ds: Seq<u8>, w: nat) -> Seq<u8> {
    if ds.len() >= w {
        ds
    } else {
        ds + Seq::new((w - ds.len()) as nat, |i: int| 0u8)
    }
}

/// The number `ds` with its `u` lowest digits put to zero.
pub open spec fn cut(ds: Seq<u8>, u: int) -> Seq<u8> {
    Seq::new(
        ds.len(),
        |i: int|
            if i < u {
                0u8
            } else {
                ds[i]
            },
    )
}

/// The number `ds` with one added at the digit `i`; nines above roll over.
pub open spec fn bumped(ds: Seq<u8>, i: int) -> Seq<u8>
    decreases ds.len() - i,
{
    if i < 0 || i >= ds.len() {
        ds
    } else if ds[i] >= 9 {
        bumped(ds.update(i, 0u8), i + 1)
    } else {
        ds.update(i, (ds[i] + 1) as u8)
    }
}

/// How the numbers made of the `n` lowest digits of `a` and of `b` stand to
/// each other: below zero if the first is smaller, above if it is larger,
/// zero if they are equal. The highest digit that differs decides.
pub open spec fn rank(a: Seq<u8>, b: Seq<u8>, n: int) -> int
    decreases n,
{
    if n <= 0 || n > a.len() || n > b.len() {
        0
    } else if a[n - 1] < b[n - 1] {
        -1
    } else if a[n - 1] > b[n - 1] {
        1
    } else {
        rank(a, b, n - 1)
    }
}

/// `c` lies between `lo` and `hi`; the ends count if `inclusive`.
pub open spec fn within(c: Seq<u8>, lo: Seq<u8>, hi: Seq<u8>, inclusive: bool) -> bool {
    if inclusive {
        rank(lo, c, c.len() as int) <= 0 && rank(c, hi, c.len() as int) <= 0
    } else {
        rank(lo, c, c.len() as int) < 0 && rank(c, hi, c.len() as int) < 0
    }
}

/// The number between `lo` and `hi` with the most zeros at its low end,
/// tried from `u` zeros down: `v` cut to `u` zeros, or the next number with
/// `u` zeros above it; if both lie between, the one nearer to `v`.
pub open spec fn shortest(
    lo: Seq<u8>,
    v: Seq<u8>,
    hi: Seq<u8>,
    inclusive: bool,
    u: int,
) -> Seq<u8>
    decreases u,
{
    let down = cut(v, u);
    let up = bumped(down, u);
    if u <= 0 || u > v.len() {
        v
    } else if within(down, lo, hi, inclusive) && within(up, lo, hi, inclusive) {
        if v[u - 1] >= 5 {
            up
        } else {
            down
        }
    } else if within(down, lo, hi, inclusive) {
        down
    } else if within(up, lo, hi, inclusive) {
        up
    } else {
        shortest(lo, v, hi, inclusive, u - 1)
    }
}

/// The place above the highest digit of `ds` that is not zero, looked for
/// below `n` and not below `floor`.
pub open spec fn top_of(ds: Seq<u8>, n: int, floor: int) -> int
    decreases n,
{
    if 0 <= floor < n <= ds.len() && ds[n - 1] == 0 {
        top_of(ds, n - 1, floor)
    } else {
        n
    }
}

/// The place of the lowest digit of `ds` that is not zero, looked for from
/// `z` on and below `k`.
pub open spec fn low_of(ds: Seq<u8>, z: int, k: int) -> int
    decreases k - z,
{
    if 0 <= z < k && z < ds.len() && ds[z] == 0 {
        low_of(ds, z + 1, k)
    } else {
        z
    }
}

/// The digits of `ds` from the place `hi - 1` down to the place `lo`, as
/// text.
pub open spec fn span(ds: Seq<u8>, hi: int, lo: int) -> Seq<char> {
    Seq::new((hi - lo) as nat, |i: int| digit_char(ds[hi - 1 - i] as nat))
}

/// The number `ds` over `k` decimal places as text: the whole part without
/// zeros in front, "0" if there is none; then, if the fraction is not
/// zero, a point and the fraction without zeros at its end.
pub open spec fn written(ds: Seq<u8>, k: int) -> Seq<char> {
    let top = top_of(ds, ds.len() as int, k);
    let low = low_of(ds, 0, k);
    (if top <= k {
        seq!['0']
    } else {
        span(ds, top, k)
    }) + (if low >= k {
        Seq::<char>::empty()
    } else {
        seq!['.'] + span(ds, k, low)
    })
}

/// The lower neighbour of the number is nearer than the upper one: the
/// significand is a power of two, and the power below has numbers of its
/// own.
pub open spec fn at_boundary(bits: u64) -> bool {
    mantissa(bits) == HIDDEN_BIT && exponent(bits) > -1074
}

/// The larger of two lengths.
pub open spec fn larger(a: nat, b: nat) -> nat {
    if a > b {
        a
    } else {
        b
    }
}

/// The width that holds the three numbers and `k` decimal places, and a
/// zero above them; no width is above the largest length of a sequence in
/// memory, which no numeral comes near.
pub open spec fn width(lo: Seq<u8>, v: Seq<u8>, hi: Seq<u8>, k: nat) -> nat {
    let most = larger(larger(lo.len(), v.len()), larger(hi.len(), k));
    if most >= usize::MAX {
        usize::MAX as nat
    } else {
        most + 1
    }
}

/// The shortest digits of the positive number `m * 2^q`, which is four
/// times `m` over `2^(q - 2)`, over `places(q - 2)` decimal places. The
/// values that round to it end half way to its neighbours: two above, and
/// two or (if `boundary`) one below it, counted over `2^(q - 2)`; the ends
/// count if `m` is even.
pub open spec fn shortest_digits(m: nat, q: int, boundary: bool) -> Seq<u8> {
    let e = q - 2;
    let below: nat = if boundary {
        1
    } else {
        2
    };
    let lo = expansion((4 * m - below) as nat, e);
    let v = expansion(4 * m, e);
    let hi = expansion(4 * m + 2, e);
    let w = width(lo, v, hi, places(e));
    shortest(padded(lo, w), padded(v, w), padded(hi, w), m % 2 == 0, w - 1)
}

/// The numeral of the positive number `m * 2^q`: its shortest digits,
/// written without an exponent.
pub open spec fn shortest_text(m: nat, q: int, boundary: bool) -> Seq<char> {
    written(shortest_digits(m, q, boundary), places(q - 2) as int)
}

/// The number `ds` over `k` decimal places as text with an exponent: its
/// highest digit that is not zero; a point and the digits below it down to
/// the lowest that is not zero, if there is one; then `e` and the power of
/// ten of the highest digit, with a minus sign if it is negative.
pub open spec fn written_with_exponent(ds: Seq<u8>, k: int) -> Seq<char> {
    let top = top_of(ds, ds.len() as int, 1);
    let low = low_of(ds, 0, top - 1);
    span(ds, top, top - 1) + (if low >= top - 1 {
        Seq::<char>::empty()
    } else {
        seq!['.'] + span(ds, top - 1, low)
    }) + seq!['e'] + (if top - 1 < k {
        seq!['-'] + decimal((k - (top - 1)) as nat)
    } else {
        decimal((top - 1 - k) as nat)
    })
}

/// The pattern of ten to the sixteenth, from which on a number is debugged
/// with an exponent.
pub const LARGE: u64 = 0x4341_C379_37E0_8000;

/// The pattern of the double nearest to one ten-thousandth, below which a
/// number is debugged with an exponent.
pub const SMALL: u64 = 0x3F1A_36E2_EB1C_432D;

/// The positive number `m * 2^q` as a debugger writes it: its shortest
/// digits, with an exponent if `exponential`, and else without one and with
/// ".0" at the end where there is no fraction.
pub open spec fn shortest_debug_text(m: nat, q: int, boundary: bool, exponential: bool) -> Seq<
    char,
> {
    let ds = shortest_digits(m, q, boundary);
    let k = places(q - 2) as int;
    if exponential {
        written_with_exponent(ds, k)
    } else {
        written(ds, k) + (if low_of(ds, 0, k) >= k {
            ".0"@
        } else {
            Seq::<char>::empty()
        })
    }
}

/// The positive finite number as a debugger writes it: with an exponent if
/// the number is at least ten to the sixteenth or below one ten-thousandth.
pub open spec fn finite_debug_numeral(bits: u64) -> Seq<char> {
    let a = crate::number::magnitude(bits);
    shortest_debug_text(
        mantissa(bits),
        exponent(bits),
        at_boundary(bits),
        a >= LARGE || a < SMALL,
    )
}

/// A number as a debugger writes it: "NaN", "inf", "0.0", or the shortest
/// numeral that reads back as the number, always with a fraction or an
/// exponent; a minus sign in front of a negative number.
pub open spec fn debug_numeral(bits: u64) -> Seq<char> {
    if is_nan(bits) {
        "NaN"@
    } else {
        (if is_negative(bits) {
            seq!['-']
        } else {
            Seq::<char>::empty()
        }) + (if is_infinite(bits) {
            "inf"@
        } else if mantissa(bits) == 0 {
            "0.0"@
        } else {
            finite_debug_numeral(bits)
        })
    }
}

/// The numeral of a positive finite number.
pub open spec fn finite_numeral(bits: u64) -> Seq<char> {
    shortest_text(mantissa(bits), exponent(bits), at_boundary(bits))
}

/// The numeral of a number: "NaN", "inf", "0", or the shortest numeral that
/// reads back as the number, without an exponent; a minus sign in front of
/// a negative number.
pub open spec fn numeral(bits: u64) -> Seq<char> {
    if is_nan(bits) {
        "NaN"@
    } else {
        (if is_negative(bits) {
            seq!['-']
        } else {
            Seq::<char>::empty()
        }) + (if is_infinite(bits) {
            "inf"@
        } else if mantissa(bits) == 0 {
            "0"@
        } else {
            finite_numeral(bits)
        })
    }
}

fn push_digits(out: &mut Vec<u8>, n: u64)
    ensures
        final(out)@ == old(out)@ + digits_of(n as nat),
{
    let mut x: u64 = n;
    assert(out@ + digits_of(n as nat) =~= old(out)@ + digits_of(n as nat));
    while x > 0
        invariant
            old(out)@ + digits_of(n as nat) == out@ + digits_of(x as nat),
        decreases x,
    {
        let ghost before = out@;
        out.push((x % 10) as u8);
        assert(before + (seq![(x % 10) as u8] + digits_of((x / 10) as nat)) =~= out@ + digits_of(
            (x / 10) as nat,
        ));
        x = x / 10;
    }
    assert(out@ + digits_of(0) =~= out@);
}

/// The digits of the number `ds` times `c`.
pub fn multiply(ds: &Vec<u8>, c: u32) -> (out: Vec<u8>)
    requires
        c <= 9,
    ensures
        out@ == times(ds@, c as nat, 0),
{
    let mut out: Vec<u8> = Vec::new();
    let mut carry: u32 = 0;
    let mut i: usize = 0;
    assert(ds@.subrange(0, ds.len() as int) =~= ds@);
    assert(out@ + times(ds@, c as nat, 0) =~= times(ds@, c as nat, 0));
    while i < ds.len()
        invariant
            0 <= i <= ds.len(),
            c <= 9,
            carry <= 255,
            times(ds@, c as nat, 0) == out@ + times(
                ds@.subrange(i as int, ds.len() as int),
                c as nat,
                carry as nat,
            ),
        decreases ds.len() - i,
    {
        let ghost before = out@;
        let ghost rest = ds@.subrange(i as int, ds.len() as int);
        let d: u32 = ds[i] as u32;
        assert(d * c <= 2295) by (nonlinear_arith)
            requires
                d <= 255,
                c <= 9,
        ;
        let t: u32 = d * c + carry;
        assert(rest[0] == ds[i as int]);
        assert(rest.drop_first() =~= ds@.subrange(i + 1, ds.len() as int));
        out.push((t % 10) as u8);
        carry = t / 10;
        i += 1;
        assert(before + (seq![(t % 10) as u8] + times(
            ds@.subrange(i as int, ds.len() as int),
            c as nat,
            carry as nat,
        )) =~= out@ + times(ds@.subrange(i as int, ds.len() as int), c as nat, carry as nat));
    }
    push_digits(&mut out, carry as u64);
    out
}

fn power(ds: Vec<u8>, c: u32, k: u64) -> (out: Vec<u8>)
    requires
        c <= 9,
    ensures
        out@ == powered(ds@, c as nat, k as nat),
{
    let mut out = ds;
    let mut i: u64 = 0;
    while i < k
        invariant
            0 <= i <= k,
            c <= 9,
            powered(ds@, c as nat, k as nat) == powered(out@, c as nat, (k - i) as nat),
        decreases k - i,
    {
        out = multiply(&out, c);
        i += 1;
    }
    out
}

fn expand(a: u64, e: i64) -> (out: Vec<u8>)
    requires
        -2000 <= e <= 2000,
    ensures
        out@ == expansion(a as nat, e as int),
{
    let mut first: Vec<u8> = Vec::new();
    push_digits(&mut first, a);
    assert(first@ =~= digits_of(a as nat));
    if e >= 0 {
        power(first, 2, e as u64)
    } else {
        power(first, 5, (-e) as u64)
    }
}

/// The number `ds` written with `w` digits, zeros above.
pub fn pad(ds: Vec<u8>, w: usize) -> (out: Vec<u8>)
    ensures
        out@ == padded(ds@, w as nat),
        out.len() == larger(ds.len() as nat, w as nat),
{
    let mut out = ds;
    if out.len() >= w {
        return out;
    }
    while out.len() < w
        invariant
            ds.len() <= out.len() <= w,
            out@ =~= ds@ + Seq::new((out.len() - ds.len()) as nat, |i: int| 0u8),
        decreases w - out.len(),
    {
        out.push(0);
    }
    out
}

fn cut_at(ds: &Vec<u8>, u: usize) -> (out: Vec<u8>)
    ensures
        out@ == cut(ds@, u as int),
{
    let mut out: Vec<u8> = Vec::new();
    let mut i: usize = 0;
    while i < ds.len()
        invariant
            0 <= i <= ds.len(),
            out.len() == i,
            forall|j: int| 0 <= j < i ==> out[j] == cut(ds@, u as int)[j],
        decreases ds.len() - i,
    {
        if i < u {
            out.push(0);
        } else {
            out.push(ds[i]);
        }
        i += 1;
    }
    assert(out@ =~= cut(ds@, u as int));
    out
}

fn bump(ds: Vec<u8>, u: usize) -> (out: Vec<u8>)
    ensures
        out@ == bumped(ds@, u as int),
{
    let mut out = ds;
    let mut i: usize = u;
    while i < out.len() && out[i] >= 9
        invariant
            bumped(ds@, u as int) == bumped(out@, i as int),
            u <= i,
        decreases out.len() - i,
    {
        out.set(i, 0);
        i += 1;
    }
    if i < out.len() {
        let d: u8 = out[i];
        out.set(i, d + 1);
    }
    out
}

fn rank_of(a: &Vec<u8>, b: &Vec<u8>) -> (r: i8)
    requires
        a.len() == b.len(),
    ensures
        r == rank(a@, b@, a.len() as int),
{
    let mut n: usize = a.len();
    while n > 0
        invariant
            0 <= n <= a.len(),
            a.len() == b.len(),
            rank(a@, b@, a.len() as int) == rank(a@, b@, n as int),
        decreases n,
    {
        if a[n - 1] < b[n - 1] {
            return -1;
        }
        if a[n - 1] > b[n - 1] {
            return 1;
        }
        n -= 1;
    }
    0
}

fn is_within(c: &Vec<u8>, lo: &Vec<u8>, hi: &Vec<u8>, inclusive: bool) -> (r: bool)
    requires
        c.len() == lo.len(),
        c.len() == hi.len(),
    ensures
        r == within(c@, lo@, hi@, inclusive),
{
    let below: i8 = rank_of(lo, c);
    let above: i8 = rank_of(c, hi);
    if inclusive {
        below <= 0 && above <= 0
    } else {
        below < 0 && above < 0
    }
}

fn shorten(lo: &Vec<u8>, v: Vec<u8>, hi: &Vec<u8>, inclusive: bool, from: usize) -> (out: Vec<u8>)
    requires
        v.len() == lo.len(),
        v.len() == hi.len(),
        from <= v.len(),
    ensures
        out@ == shortest(lo@, v@, hi@, inclusive, from as int),
        out.len() == v.len(),
{
    let mut u: usize = from;
    while u > 0
        invariant
            0 <= u <= from <= v.len(),
            v.len() == lo.len(),
            v.len() == hi.len(),
            shortest(lo@, v@, hi@, inclusive, from as int) == shortest(
                lo@,
                v@,
                hi@,
                inclusive,
                u as int,
            ),
        decreases u,
    {
        let down = cut_at(&v, u);
        let up = bump(cut_at(&v, u), u);
        assert(up.len() == v.len()) by {
            lemma_bumped_keeps_length(down@, u as int);
        }
        let down_fits = is_within(&down, lo, hi, inclusive);
        let up_fits = is_within(&up, lo, hi, inclusive);
        if down_fits && up_fits {
            if v[u - 1] >= 5 {
                return up;
            } else {
                return down;
            }
        } else if down_fits {
            return down;
        } else if up_fits {
            return up;
        }
        u -= 1;
    }
    v
}

/// Adding one changes no length.
pub proof fn lemma_bumped_keeps_length(ds: Seq<u8>, i: int)
    ensures
        bumped(ds, i).len() == ds.len(),
    decreases ds.len() - i,
{
    if 0 <= i < ds.len() && ds[i] >= 9 {
        lemma_bumped_keeps_length(ds.update(i, 0u8), i + 1);
    }
}

fn char_of(d: u8) -> (c: char)
    ensures
        c == digit_char(d as nat),
{
    if d == 0 {
        '0'
    } else if d == 1 {
        '1'
    } else if d == 2 {
        '2'
    } else if d == 3 {
        '3'
    } else if d == 4 {
        '4'
    } else if d == 5 {
        '5'
    } else if d == 6 {
        '6'
    } else if d == 7 {
        '7'
    } else if d == 8 {
        '8'
    } else {
        '9'
    }
}

/// Appends the digits of `ds` from the place `hi - 1` down to `lo`.
fn push_span(out: &mut String, ds: &Vec<u8>, hi: usize, lo: usize)
    requires
        lo <= hi <= ds.len(),
    ensures
        final(out)@ == old(out)@ + span(ds@, hi as int, lo as int),
{
    let mut i: usize = hi;
    assert(out@ =~= old(out)@ + span(ds@, hi as int, lo as int).subrange(0, 0));
    while i > lo
        invariant
            lo <= i <= hi <= ds.len(),
            out@ == old(out)@ + span(ds@, hi as int, lo as int).subrange(0, hi - i),
        decreases i,
    {
        let ghost before = out@;
        out.push(char_of(ds[i - 1]));
        i -= 1;
        assert(out@ =~= old(out)@ + span(ds@, hi as int, lo as int).subrange(0, hi - i)) by {
            assert(span(ds@, hi as int, lo as int)[hi - i - 1] == digit_char(ds[i as int] as nat));
        }
    }
    assert(span(ds@, hi as int, lo as int).subrange(0, hi - lo) =~= span(ds@, hi as int, lo as int));
}

fn write_out(out: &mut String, ds: &Vec<u8>, k: usize)
    requires
        k <= ds.len(),
    ensures
        final(out)@ == old(out)@ + written(ds@, k as int),
{
    let mut top: usize = ds.len();
    while top > k && ds[top - 1] == 0
        invariant
            k <= top <= ds.len(),
            top_of(ds@, ds.len() as int, k as int) == top_of(ds@, top as int, k as int),
        decreases top,
    {
        top -= 1;
    }
    let mut low: usize = 0;
    while low < k && ds[low] == 0
        invariant
            0 <= low <= k <= ds.len(),
            low_of(ds@, 0, k as int) == low_of(ds@, low as int, k as int),
        decreases k - low,
    {
        low += 1;
    }
    let ghost start = out@;
    if top <= k {
        out.push('0');
        assert(out@ =~= start + seq!['0']);
    } else {
        push_span(out, ds, top, k);
    }
    let ghost whole = out@;
    if low < k {
        out.push('.');
        push_span(out, ds, k, low);
        assert(out@ =~= whole + (seq!['.'] + span(ds@, k as int, low as int)));
    } else {
        assert(out@ =~= whole + Seq::<char>::empty());
    }
    assert(out@ =~= start + written(ds@, k as int));
}

fn longer(a: usize, b: usize) -> (w: usize)
    ensures
        w == larger(a as nat, b as nat),
{
    if a > b {
        a
    } else {
        b
    }
}

/// The shortest digits of the positive number `m * 2^q`, and the number of
/// decimal places that they stand over.
fn shortest_of(m: u64, q: i64, boundary: bool) -> (r: (Vec<u8>, usize))
    requires
        0 < m < 2 * HIDDEN_BIT,
        -1074 <= q <= 972,
    ensures
        r.0@ == shortest_digits(m as nat, q as int, boundary),
        r.1 == places(q - 2),
        r.1 <= r.0.len(),
        1 <= r.0.len(),
{
    let below: u64 = if boundary {
        1
    } else {
        2
    };
    let lo = expand(4 * m - below, q - 2);
    let v = expand(4 * m, q - 2);
    let hi = expand(4 * m + 2, q - 2);
    let k: usize = if q - 2 >= 0 {
        0
    } else {
        (2 - q) as usize
    };
    let most = longer(longer(lo.len(), v.len()), longer(hi.len(), k));
    let w: usize = if most >= usize::MAX {
        usize::MAX
    } else {
        most + 1
    };
    let lo = pad(lo, w);
    let v = pad(v, w);
    let hi = pad(hi, w);
    let best = shorten(&lo, v, &hi, m % 2 == 0, w - 1);
    (best, k)
}

/// Appends the numeral of the positive number `m * 2^q` to `out`.
fn push_shortest(out: &mut String, m: u64, q: i64, boundary: bool)
    requires
        0 < m < 2 * HIDDEN_BIT,
        -1074 <= q <= 972,
    ensures
        final(out)@ == old(out)@ + shortest_text(m as nat, q as int, boundary),
{
    let (best, k) = shortest_of(m, q, boundary);
    write_out(out, &best, k);
}

/// Appends `ds` over `k` decimal places to `out`, with an exponent.
fn write_with_exponent(out: &mut String, ds: &Vec<u8>, k: usize)
    requires
        1 <= ds.len(),
        k <= ds.len(),
    ensures
        final(out)@ == old(out)@ + written_with_exponent(ds@, k as int),
{
    let mut top: usize = ds.len();
    while top > 1 && ds[top - 1] == 0
        invariant
            1 <= top <= ds.len(),
            top_of(ds@, ds.len() as int, 1) == top_of(ds@, top as int, 1),
        decreases top,
    {
        top -= 1;
    }
    let mut low: usize = 0;
    while low < top - 1 && ds[low] == 0
        invariant
            0 <= low <= top - 1,
            top <= ds.len(),
            low_of(ds@, 0, top - 1) == low_of(ds@, low as int, top - 1),
        decreases top - low,
    {
        low += 1;
    }
    let ghost start = out@;
    push_span(out, ds, top, top - 1);
    let ghost first = out@;
    if low < top - 1 {
        out.push('.');
        push_span(out, ds, top - 1, low);
        assert(out@ =~= first + (seq!['.'] + span(ds@, top - 1, low as int)));
    } else {
        assert(out@ =~= first + Seq::<char>::empty());
    }
    let ghost digits = out@;
    out.push('e');
    if top - 1 < k {
        out.push('-');
        let ghost signed = out@;
        push_decimal(out, (k - (top - 1)) as u64);
        assert(out@ =~= digits + seq!['e'] + (seq!['-'] + decimal((k - (top - 1)) as nat)));
    } else {
        push_decimal(out, (top - 1 - k) as u64);
    }
    assert(out@ =~= start + written_with_exponent(ds@, k as int));
}

/// Appends to `out` the positive number `m * 2^q` as a debugger writes it.
fn push_shortest_debug(out: &mut String, m: u64, q: i64, boundary: bool, exponential: bool)
    requires
        0 < m < 2 * HIDDEN_BIT,
        -1074 <= q <= 972,
    ensures
        final(out)@ == old(out)@ + shortest_debug_text(m as nat, q as int, boundary, exponential),
{
    let (best, k) = shortest_of(m, q, boundary);
    if exponential {
        write_with_exponent(out, &best, k);
    } else {
        write_out(out, &best, k);
        let mut low: usize = 0;
        while low < k && best[low] == 0
            invariant
                0 <= low <= k <= best.len(),
                low_of(best@, 0, k as int) == low_of(best@, low as int, k as int),
            decreases k - low,
        {
            low += 1;
        }
        let ghost whole = out@;
        if low >= k {
            push_text(out, ".0");
        } else {
            assert(out@ =~= whole + Seq::<char>::empty());
        }
        assert(out@ =~= old(out)@ + shortest_debug_text(m as nat, q as int, boundary, exponential));
    }
}

/// Appends to `out` the number as a debugger writes it.
pub fn push_debug_numeral(out: &mut String, bits: u64)
    ensures
        final(out)@ == old(out)@ + debug_numeral(bits),
{
    if crate::number::number_is_nan(bits) {
        push_text(out, "NaN");
        return ;
    }
    let ghost start = out@;
    if bits >= SIGN_BIT {
        out.push('-');
    }
    let a: u64 = magnitude_of(bits);
    if a == INFINITY_BITS {
        push_text(out, "inf");
        assert(out@ =~= start + debug_numeral(bits));
        return ;
    }
    let e: u64 = a / HIDDEN_BIT;
    let f: u64 = a % HIDDEN_BIT;
    assert(e <= 2047) by (bit_vector)
        requires
            e == a / 0x0010_0000_0000_0000u64,
            a < 0x8000_0000_0000_0000u64,
    ;
    let m: u64 = if e == 0 {
        f
    } else {
        HIDDEN_BIT + f
    };
    if m == 0 {
        push_text(out, "0.0");
        assert(out@ =~= start + debug_numeral(bits));
        return ;
    }
    let q: i64 = if e == 0 {
        -1074
    } else {
        e as i64 - 1075
    };
    push_shortest_debug(out, m, q, m == HIDDEN_BIT && q > -1074, a >= LARGE || a < SMALL);
    assert(out@ =~= start + debug_numeral(bits));
}

/// Appends the numeral of a number to `out`.
pub fn push_numeral(out: &mut String, bits: u64)
    ensures
        final(out)@ == old(out)@ + numeral(bits),
{
    if crate::number::number_is_nan(bits) {
        push_text(out, "NaN");
        return ;
    }
    let ghost start = out@;
    if bits >= SIGN_BIT {
        out.push('-');
    }
    let a: u64 = magnitude_of(bits);
    if a == INFINITY_BITS {
        push_text(out, "inf");
        assert(out@ =~= start + numeral(bits));
        return ;
    }
    let e: u64 = a / HIDDEN_BIT;
    let f: u64 = a % HIDDEN_BIT;
    assert(e <= 2047) by (bit_vector)
        requires
            e == a / 0x0010_0000_0000_0000u64,
            a < 0x8000_0000_0000_0000u64,
    ;
    let m: u64 = if e == 0 {
        f
    } else {
        HIDDEN_BIT + f
    };
    if m == 0 {
        push_text(out, "0");
        assert(out@ =~= start + numeral(bits));
        return ;
    }
    let q: i64 = if e == 0 {
        -1074
    } else {
        e as i64 - 1075
    };
    push_shortest(out, m, q, m == HIDDEN_BIT && q > -1074);
    assert(out@ =~= start + numeral(bits));
}

/// The numeral of a number.
pub fn number_string(bits: u64) -> (s: String)
    ensures
        s@ == numeral(bits),
{
    let mut s = String::new();
    push_numeral(&mut s, bits);
    assert(s@ =~= numeral(bits));
    s
}

} // verus!
