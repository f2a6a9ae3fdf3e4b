//! Numbers read from text: the double nearest to a decimal numeral of any
//! length, with or without a point and an exponent.
//!
//! The digits are kept as they are written, lowest first. The whole part is
//! halved until it fits the machine, the fraction doubled into it while the
//! whole part is short, and what is left below decides the rounding.

use crate::double::{pack, packed, with_sign, LIMIT, NAN_BITS};
use crate::minielixir_parser::{digit_value, digits_end, is_digit, scan_digits};
use crate::number::{INFINITY_BITS, SIGN_BIT};
use crate::numeral::{padded, times, top_of};
use vstd::prelude::*;

verus! {

/// The largest number that can take one more decimal digit and stay below
/// 2^126.
pub const CAP: u128 = 0x0666_6666_6666_6666_6666_6666_6666_6600;

/// How often a number is halved or doubled at most; no double needs as
/// many steps.
pub const FUEL: u32 = 1500;

/// The first exponent read as larger than any that matters.
pub const HUGE: u64 = 100_000;

/// The most digits of a numeral that is read.
pub const LONGEST: usize = 0x4000_0000;

/// The number made of the digits of `ds` below the place `n`, read from
/// the top, on top of `acc`; none if it does not fit.
pub open spec fn read_up(ds: Seq<u8>, n: int, acc: nat) -> Option<nat>
    decreases n,
{
    if n <= 0 || n > ds.len() {
        Some(acc)
    } else if acc > CAP {
        None
    } else {
        read_up(ds, n - 1, (acc * 10 + ds[n - 1]) as nat)
    }
}

/// The whole number `whole * 2^q` with `whole` halved until it fits the
/// machine; `sticky` says whether a half was dropped.
pub open spec fn reduced(whole: Seq<u8>, q: int, sticky: bool, fuel: nat) -> (Option<nat>, int, bool)
    decreases fuel,
{
    let half = times(whole, 5, 0);
    if read_up(whole, whole.len() as int, 0) is Some || fuel == 0 || half.len() == 0 {
        (read_up(whole, whole.len() as int, 0), q, sticky)
    } else {
        reduced(half.drop_first(), q + 1, sticky || half[0] == 5, (fuel - 1) as nat)
    }
}

/// The first `k` digits of `ds`, or all of them.
pub open spec fn take(ds: Seq<u8>, k: int) -> Seq<u8> {
    Seq::new(
        if k <= 0 {
            0nat
        } else if k >= ds.len() {
            ds.len()
        } else {
            k as nat
        },
        |i: int| ds[i],
    )
}

/// The digits of `ds` from the place `k` on.
pub open spec fn skip(ds: Seq<u8>, k: int) -> Seq<u8> {
    Seq::new(
        if k <= 0 {
            ds.len()
        } else if k >= ds.len() {
            0nat
        } else {
            (ds.len() - k) as nat
        },
        |i: int|
            if k <= 0 {
                ds[i]
            } else {
                ds[i + k]
            },
    )
}

/// The number `(m + fraction) * 2^q`, the fraction written over as many
/// decimal places as it has digits, doubled while `m` has fewer than 65
/// binary digits and the fraction is not zero.
pub open spec fn grown(m: nat, fraction: Seq<u8>, q: int, fuel: nat) -> (nat, Seq<u8>, int)
    decreases fuel,
{
    let twice = times(fraction, 2, 0);
    if fuel == 0 || m >= LIMIT || top_of(fraction, fraction.len() as int, 0) == 0 {
        (m, fraction, q)
    } else {
        grown(
            (2 * m + if twice.len() > fraction.len() {
                twice[fraction.len() as int] as nat
            } else {
                0nat
            }) as nat,
            take(twice, fraction.len() as int),
            q - 1,
            (fuel - 1) as nat,
        )
    }
}

/// `x` zeros, then the digits of `ds`: the number times `10^x`.
pub open spec fn shifted(ds: Seq<u8>, x: int) -> Seq<u8> {
    Seq::new(
        if x <= 0 {
            0nat
        } else {
            x as nat
        },
        |i: int| 0u8,
    ) + ds
}

/// The double nearest to the number `digits * 10^x`, with the sign
/// `negative`. A number of more than 310 digits before the point is
/// infinity, one that starts more than 330 places behind it is zero.
pub open spec fn decimal_double(negative: bool, digits: Seq<u8>, x: int) -> u64 {
    let size = top_of(digits, digits.len() as int, 0);
    let s = take(digits, size);
    if size <= 0 {
        with_sign(negative, 0)
    } else if size + x > 310 {
        with_sign(negative, INFINITY_BITS)
    } else if size + x < -330 {
        with_sign(negative, 0)
    } else {
        let whole = if x >= 0 {
            shifted(s, x)
        } else {
            skip(s, -x)
        };
        let fraction = if x >= 0 {
            Seq::<u8>::empty()
        } else {
            padded(take(s, -x), (-x) as nat)
        };
        let fit = reduced(whole, 0, false, FUEL as nat);
        match fit.0 {
            None => with_sign(negative, INFINITY_BITS),
            Some(m) => {
                let full = grown(m, fraction, fit.1, FUEL as nat);
                packed(
                    negative,
                    full.0,
                    full.2,
                    fit.2 || top_of(full.1, full.1.len() as int, 0) > 0,
                )
            },
        }
    }
}

/// The text is the word, in small or in capital letters.
pub open spec fn is_word(t: Seq<char>, small: Seq<char>, capital: Seq<char>) -> bool {
    &&& t.len() == small.len()
    &&& t.len() == capital.len()
    &&& forall|i: int| 0 <= i < t.len() ==> #[trigger] t[i] == small[i] || t[i] == capital[i]
}

/// The number that the digits of `s` from `lo` to `hi` write on top of
/// `acc`; it stops at `HUGE`.
pub open spec fn bounded_value(s: Seq<char>, lo: int, hi: int, acc: nat) -> nat
    decreases hi - lo,
{
    if lo >= hi || lo < 0 || hi > s.len() {
        acc
    } else if acc >= HUGE {
        acc
    } else {
        bounded_value(s, lo + 1, hi, (acc * 10 + digit_value(s[lo])) as nat)
    }
}

/// The digits of a numeral, lowest first: those behind the point, which
/// stand in `s` from `f0` to `f1`, below those before it, which stand from
/// 0 to `a`.
pub open spec fn gathered(s: Seq<char>, a: int, f0: int, f1: int) -> Seq<u8> {
    Seq::new(
        (a + (f1 - f0)) as nat,
        |i: int|
            if i < f1 - f0 {
                digit_value(s[f1 - 1 - i]) as u8
            } else {
                digit_value(s[a - 1 - (i - (f1 - f0))]) as u8
            },
    )
}

/// The end of an optional sign at `i`.
pub open spec fn after_sign(s: Seq<char>, i: int) -> int {
    if 0 <= i < s.len() && (s[i] == '+' || s[i] == '-') {
        i + 1
    } else {
        i
    }
}

/// The power of ten that the text writes from the place `at` on: nothing,
/// which is the power zero; or `e` or `E`, a sign if wished, and digits up
/// to the end of the text. Anything else writes none.
pub open spec fn power_read(s: Seq<char>, at: int) -> Option<int> {
    let e0 = after_sign(s, at + 1);
    let e1 = digits_end(s, e0);
    let power = bounded_value(s, e0, e1, 0) as int;
    if at == s.len() {
        Some(0)
    } else if 0 <= at < s.len() && (s[at] == 'e' || s[at] == 'E') && e1 > e0 && e1 == s.len() {
        Some(
            if s[at + 1] == '-' {
                -power
            } else {
                power
            },
        )
    } else {
        None
    }
}

/// The number that a numeral without sign writes: digits with a point
/// among them if wished, at least one digit and at most `LONGEST` in all;
/// then, if wished, a power of ten.
pub open spec fn unsigned_number(s: Seq<char>, negative: bool) -> Option<u64> {
    let a = digits_end(s, 0);
    let point = a < s.len() && s[a] == '.';
    let f0 = if point {
        a + 1
    } else {
        a
    };
    let f1 = digits_end(s, f0);
    if (a == 0 && f1 == f0) || a + (f1 - f0) > LONGEST {
        None
    } else {
        match power_read(s, f1) {
            Some(power) => Some(
                decimal_double(negative, gathered(s, a, f0, f1), power - (f1 - f0)),
            ),
            None => None,
        }
    }
}

/// The number that a text writes, if it writes one: a sign if wished, then
/// a numeral, or "inf", "infinity" or "nan" in small or capital letters.
pub open spec fn number_read(t: Seq<char>) -> Option<u64> {
    let negative = t.len() > 0 && t[0] == '-';
    let s = t.subrange(after_sign(t, 0), t.len() as int);
    if is_word(s, "inf"@, "INF"@) || is_word(s, "infinity"@, "INFINITY"@) {
        Some(with_sign(negative, INFINITY_BITS))
    } else if is_word(s, "nan"@, "NAN"@) {
        Some(NAN_BITS)
    } else {
        unsigned_number(s, negative)
    }
}

fn signed_of(negative: bool, size: u64) -> (bits: u64)
    requires
        size < SIGN_BIT,
    ensures
        bits == with_sign(negative, size),
{
    if negative {
        SIGN_BIT + size
    } else {
        size
    }
}

fn top(ds: &Vec<u8>) -> (n: usize)
    ensures
        n == top_of(ds@, ds.len() as int, 0),
        n <= ds.len(),
{
    let mut n: usize = ds.len();
    while n > 0 && ds[n - 1] == 0
        invariant
            0 <= n <= ds.len(),
            top_of(ds@, ds.len() as int, 0) == top_of(ds@, n as int, 0),
        decreases n,
    {
        n -= 1;
    }
    n
}

fn read_whole(ds: &Vec<u8>) -> (r: Option<u128>)
    ensures
        match r {
            Some(m) => read_up(ds@, ds.len() as int, 0) == Some(m as nat) && m
                < 0x4000_0000_0000_0000_0000_0000_0000_0000,
            None => read_up(ds@, ds.len() as int, 0) is None,
        },
{
    let mut acc: u128 = 0;
    let mut n: usize = ds.len();
    while n > 0
        invariant
            0 <= n <= ds.len(),
            read_up(ds@, ds.len() as int, 0) == read_up(ds@, n as int, acc as nat),
            acc < 0x4000_0000_0000_0000_0000_0000_0000_0000,
        decreases n,
    {
        if acc > CAP {
            return None;
        }
        acc = acc * 10 + ds[n - 1] as u128;
        n -= 1;
    }
    Some(acc)
}

fn first(ds: &Vec<u8>, k: usize) -> (out: Vec<u8>)
    ensures
        out@ == take(ds@, k as int),
{
    let mut out: Vec<u8> = Vec::new();
    let mut i: usize = 0;
    while i < k && i < ds.len()
        invariant
            0 <= i <= ds.len(),
            i <= k,
            out.len() == i,
            forall|j: int| 0 <= j < i ==> out[j] == ds[j],
        decreases ds.len() - i,
    {
        out.push(ds[i]);
        i += 1;
    }
    assert(out@ =~= take(ds@, k as int));
    out
}

fn rest(ds: &Vec<u8>, k: usize) -> (out: Vec<u8>)
    ensures
        out@ == skip(ds@, k as int),
{
    let mut out: Vec<u8> = Vec::new();
    if k >= ds.len() {
        assert(out@ =~= skip(ds@, k as int));
        return out;
    }
    let mut i: usize = k;
    while i < ds.len()
        invariant
            k <= i <= ds.len(),
            out.len() == i - k,
            forall|j: int| 0 <= j < out.len() ==> out[j] == ds[j + k],
        decreases ds.len() - i,
    {
        out.push(ds[i]);
        i += 1;
    }
    assert(out@ =~= skip(ds@, k as int));
    out
}

fn reduce(whole: Vec<u8>) -> (r: (Option<u128>, i64, bool))
    ensures
        reduced(whole@, 0, false, FUEL as nat) == (
            match r.0 {
                Some(m) => Some(m as nat),
                None => None,
            },
            r.1 as int,
            r.2,
        ),
        r.0 is Some ==> r.0.unwrap() < 0x4000_0000_0000_0000_0000_0000_0000_0000,
        0 <= r.1 <= FUEL,
{
    let mut current = whole;
    let mut q: i64 = 0;
    let mut sticky = false;
    let mut fuel: u32 = FUEL;
    loop
        invariant
            0 <= fuel <= FUEL,
            q == FUEL - fuel,
            reduced(whole@, 0, false, FUEL as nat) == reduced(current@, q as int, sticky, fuel as nat),
        decreases fuel,
    {
        let value = read_whole(&current);
        if value.is_some() || fuel == 0 {
            return (value, q, sticky);
        }
        let half = crate::numeral::multiply(&current, 5);
        if half.len() == 0 {
            return (value, q, sticky);
        }
        sticky = sticky || half[0] == 5;
        current = rest(&half, 1);
        assert(current@ =~= half@.drop_first());
        q = q + 1;
        fuel = fuel - 1;
    }
}

fn grow(m: u128, fraction: Vec<u8>, q: i64) -> (r: (u128, Vec<u8>, i64))
    requires
        m < 0x4000_0000_0000_0000_0000_0000_0000_0000,
        0 <= q <= FUEL,
    ensures
        (r.0 as nat, r.1@, r.2 as int) == grown(m as nat, fraction@, q as int, FUEL as nat),
        r.0 < 0x4000_0000_0000_0000_0000_0000_0000_0000,
        -(FUEL as int) <= r.2 <= FUEL,
{
    let mut whole: u128 = m;
    let mut part = fraction;
    let mut e: i64 = q;
    let mut fuel: u32 = FUEL;
    while fuel > 0 && whole < LIMIT && top(&part) > 0
        invariant
            0 <= fuel <= FUEL,
            e == q - (FUEL - fuel),
            0 <= q <= FUEL,
            whole < 0x4000_0000_0000_0000_0000_0000_0000_0000,
            grown(m as nat, fraction@, q as int, FUEL as nat) == grown(
                whole as nat,
                part@,
                e as int,
                fuel as nat,
            ),
        decreases fuel,
    {
        let twice = crate::numeral::multiply(&part, 2);
        let carry: u128 = if twice.len() > part.len() {
            twice[part.len()] as u128
        } else {
            0
        };
        whole = 2 * whole + carry;
        part = first(&twice, part.len());
        e = e - 1;
        fuel = fuel - 1;
    }
    (whole, part, e)
}

fn zeros_then(ds: &Vec<u8>, x: usize) -> (out: Vec<u8>)
    ensures
        out@ == shifted(ds@, x as int),
{
    let mut out: Vec<u8> = Vec::new();
    while out.len() < x
        invariant
            out.len() <= x,
            forall|j: int| 0 <= j < out.len() ==> out[j] == 0,
        decreases x - out.len(),
    {
        out.push(0);
    }
    let mut i: usize = 0;
    while i < ds.len()
        invariant
            0 <= i <= ds.len(),
            out.len() == x + i,
            forall|j: int| 0 <= j < x ==> out[j] == 0,
            forall|j: int| 0 <= j < i ==> out[x + j] == ds[j],
        decreases ds.len() - i,
    {
        out.push(ds[i]);
        i += 1;
    }
    assert(out@ =~= shifted(ds@, x as int));
    out
}

/// The double nearest to the number `digits * 10^x`.
pub fn double_from_decimal(negative: bool, digits: &Vec<u8>, x: i64) -> (bits: u64)
    requires
        digits.len() <= LONGEST,
        -0x7000_0000 <= x <= 0x7000_0000,
    ensures
        bits == decimal_double(negative, digits@, x as int),
{
    let size = top(digits);
    let s = first(digits, size);
    if size == 0 {
        return signed_of(negative, 0);
    }
    if size as i128 + x as i128 > 310 {
        return signed_of(negative, INFINITY_BITS);
    }
    if (size as i128 + x as i128) < -330 {
        return signed_of(negative, 0);
    }
    let whole = if x >= 0 {
        zeros_then(&s, x as usize)
    } else {
        rest(&s, (-x) as usize)
    };
    let fraction = if x >= 0 {
        Vec::new()
    } else {
        crate::numeral::pad(first(&s, (-x) as usize), (-x) as usize)
    };
    assert(x >= 0 ==> fraction@ =~= Seq::<u8>::empty());
    let fit = reduce(whole);
    match fit.0 {
        None => signed_of(negative, INFINITY_BITS),
        Some(m) => {
            let full = grow(m, fraction, fit.1);
            let left = top(&full.1) > 0;
            pack(negative, full.0, full.2 as i128, fit.2 || left)
        },
    }
}

fn word_is(t: &Vec<char>, from: usize, small: &str, capital: &str) -> (r: bool)
    requires
        from <= t.len(),
    ensures
        r == is_word(t@.subrange(from as int, t.len() as int), small@, capital@),
{
    let a = crate::text::chars_of(small);
    let b = crate::text::chars_of(capital);
    let ghost s = t@.subrange(from as int, t.len() as int);
    if t.len() - from != a.len() || a.len() != b.len() {
        return false;
    }
    let mut i: usize = 0;
    while i < a.len()
        invariant
            0 <= i <= a.len(),
            a.len() == b.len(),
            t.len() - from == a.len(),
            a@ == small@,
            b@ == capital@,
            s == t@.subrange(from as int, t.len() as int),
            forall|j: int| 0 <= j < i ==> #[trigger] s[j] == small@[j] || s[j] == capital@[j],
        decreases a.len() - i,
    {
        if t[from + i] != a[i] && t[from + i] != b[i] {
            assert(s[i as int] == t[from + i]);
            return false;
        }
        assert(s[i as int] == t[from + i]);
        i += 1;
    }
    true
}

fn bounded(s: &Vec<char>, lo: usize, hi: usize) -> (v: u64)
    requires
        lo <= hi <= s.len(),
        forall|k: int| lo <= k < hi ==> is_digit(s[k]),
    ensures
        v == bounded_value(s@, lo as int, hi as int, 0),
        v < 10 * HUGE + 10,
{
    let mut v: u64 = 0;
    let mut i: usize = lo;
    while i < hi && v < HUGE
        invariant
            lo <= i <= hi <= s.len(),
            forall|k: int| lo <= k < hi ==> is_digit(s[k]),
            v < 10 * HUGE + 10,
            bounded_value(s@, lo as int, hi as int, 0) == bounded_value(
                s@,
                i as int,
                hi as int,
                v as nat,
            ),
        decreases hi - i,
    {
        let c = s[i];
        let d: u64 = (c as u32 - '0' as u32) as u64;
        v = v * 10 + d;
        i += 1;
    }
    v
}

fn gather(s: &Vec<char>, a: usize, f0: usize, f1: usize) -> (out: Vec<u8>)
    requires
        a <= f0 <= f1 <= s.len(),
        forall|k: int| 0 <= k < a ==> is_digit(s[k]),
        forall|k: int| f0 <= k < f1 ==> is_digit(s[k]),
    ensures
        out@ == gathered(s@, a as int, f0 as int, f1 as int),
{
    let mut out: Vec<u8> = Vec::new();
    let mut i: usize = f1;
    while i > f0
        invariant
            f0 <= i <= f1 <= s.len(),
            out.len() == f1 - i,
            forall|k: int| f0 <= k < f1 ==> is_digit(s[k]),
            forall|j: int| 0 <= j < out.len() ==> out[j] == digit_value(s[f1 - 1 - j]) as u8,
        decreases i,
    {
        let c = s[i - 1];
        out.push((c as u32 - '0' as u32) as u8);
        i -= 1;
    }
    let mut i: usize = a;
    while i > 0
        invariant
            0 <= i <= a <= f0 <= f1 <= s.len(),
            out.len() == (f1 - f0) + (a - i),
            forall|k: int| 0 <= k < a ==> is_digit(s[k]),
            forall|j: int| 0 <= j < f1 - f0 ==> out[j] == digit_value(s[f1 - 1 - j]) as u8,
            forall|j: int|
                f1 - f0 <= j < out.len() ==> out[j] == digit_value(s[a - 1 - (j - (f1 - f0))]) as u8,
        decreases i,
    {
        let c = s[i - 1];
        out.push((c as u32 - '0' as u32) as u8);
        i -= 1;
    }
    assert(out@ =~= gathered(s@, a as int, f0 as int, f1 as int));
    out
}

fn sign_end(s: &Vec<char>, i: usize) -> (e: usize)
    requires
        i <= s.len(),
    ensures
        e == after_sign(s@, i as int),
        i <= e <= s.len(),
{
    if i < s.len() && (s[i] == '+' || s[i] == '-') {
        i + 1
    } else {
        i
    }
}

fn read_power(s: &Vec<char>, at: usize) -> (r: Option<i64>)
    requires
        at <= s.len(),
    ensures
        match r {
            Some(power) => power_read(s@, at as int) == Some(power as int) && -2_000_000 < power
                < 2_000_000,
            None => power_read(s@, at as int) is None,
        },
{
    if at == s.len() {
        return Some(0);
    }
    if s[at] != 'e' && s[at] != 'E' {
        return None;
    }
    let e0 = sign_end(s, at + 1);
    let e1 = scan_digits(s, e0);
    if e1 <= e0 || e1 != s.len() {
        return None;
    }
    let power: i64 = bounded(s, e0, e1) as i64;
    if s[at + 1] == '-' {
        Some(-power)
    } else {
        Some(power)
    }
}

fn read_unsigned(s: &Vec<char>, negative: bool) -> (r: Option<u64>)
    ensures
        r == unsigned_number(s@, negative),
{
    let a = scan_digits(s, 0);
    let point = a < s.len() && s[a] == '.';
    let f0: usize = if point {
        a + 1
    } else {
        a
    };
    let f1 = scan_digits(s, f0);
    if (a == 0 && f1 == f0) || f1 - f0 > LONGEST || a > LONGEST - (f1 - f0) {
        return None;
    }
    match read_power(s, f1) {
        Some(power) => {
            let behind: i64 = (f1 - f0) as i64;
            let digits = gather(s, a, f0, f1);
            Some(double_from_decimal(negative, &digits, power - behind))
        },
        None => None,
    }
}

/// The number that a text writes, if it writes one.
pub fn read_number(t: &Vec<char>) -> (r: Option<u64>)
    ensures
        r == number_read(t@),
{
    let negative = t.len() > 0 && t[0] == '-';
    let from = sign_end(t, 0);
    if word_is(t, from, "inf", "INF") || word_is(t, from, "infinity", "INFINITY") {
        return Some(signed_of(negative, INFINITY_BITS));
    }
    if word_is(t, from, "nan", "NAN") {
        return Some(NAN_BITS);
    }
    let mut s: Vec<char> = Vec::new();
    let mut i: usize = from;
    while i < t.len()
        invariant
            from <= i <= t.len(),
            s.len() == i - from,
            forall|j: int| 0 <= j < s.len() ==> s[j] == t[from + j],
        decreases t.len() - i,
    {
        s.push(t[i]);
        i += 1;
    }
    assert(s@ =~= t@.subrange(from as int, t.len() as int));
    read_unsigned(&s, negative)
}

} // verus!
