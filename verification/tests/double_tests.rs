use ellex_core::double::{double_add, double_div, double_mul, double_sub, pack};

fn same(got: u64, expected: f64) -> bool {
    if expected.is_nan() {
        f64::from_bits(got).is_nan()
    } else {
        got == expected.to_bits()
    }
}

fn check(a: f64, b: f64) {
    let (x, y) = (a.to_bits(), b.to_bits());
    assert!(same(double_add(x, y), a + b), "{a:e} + {b:e}: {:e}", f64::from_bits(double_add(x, y)));
    assert!(same(double_sub(x, y), a - b), "{a:e} - {b:e}: {:e}", f64::from_bits(double_sub(x, y)));
    assert!(same(double_mul(x, y), a * b), "{a:e} * {b:e}: {:e}", f64::from_bits(double_mul(x, y)));
    assert!(same(double_div(x, y), a / b), "{a:e} / {b:e}: {:e}", f64::from_bits(double_div(x, y)));
}

fn corners() -> Vec<f64> {
    let mut all = vec![
        0.0,
        1.0,
        2.0,
        3.0,
        0.5,
        0.1,
        0.2,
        0.3,
        1.5,
        36.6,
        1e-5,
        1e15,
        1e16,
        1e22,
        1e23,
        1e300,
        1e308,
        1e-300,
        1e-308,
        1e-320,
        5e-324,
        1.5e-323,
        f64::MIN_POSITIVE,
        f64::MIN_POSITIVE / 2.0,
        f64::MAX,
        f64::MAX / 2.0,
        f64::EPSILON,
        1.0 + f64::EPSILON,
        1.0 - f64::EPSILON / 2.0,
        9007199254740991.0,
        9007199254740992.0,
        9007199254740994.0,
        4503599627370496.5,
        std::f64::consts::PI,
        std::f64::consts::E,
        f64::INFINITY,
        f64::NAN,
    ];
    let negatives: Vec<f64> = all.iter().map(|x| -x).collect();
    all.extend(negatives);
    all
}

#[test]
fn arithmetic_agrees_with_the_hardware_at_the_corners() {
    for a in corners() {
        for b in corners() {
            check(a, b);
        }
    }
}

#[test]
fn arithmetic_agrees_with_the_hardware_on_many_patterns() {
    // A fixed sequence of patterns that reaches every exponent.
    let mut state: u64 = 0x9E37_79B9_7F4A_7C15;
    let mut next = || {
        state ^= state << 13;
        state ^= state >> 7;
        state ^= state << 17;
        state
    };
    for _ in 0..20000 {
        let a = f64::from_bits(next());
        let b = f64::from_bits(next());
        check(a, b);
        // Numbers close to each other, where sums cancel and quotients are near one.
        let near = f64::from_bits(a.to_bits() ^ (next() & 0xFFFF));
        check(a, near);
        // Numbers some powers of two apart, where the smaller one is partly or wholly lost.
        let apart = next() % 140;
        let far = f64::from_bits(a.to_bits().wrapping_sub(apart << 52));
        check(a, far);
        check(far, a);
    }
}

#[test]
fn fractions_and_large_numbers_are_computed() {
    let bits = |x: f64| x.to_bits();
    assert_eq!(double_div(bits(1.0), bits(3.0)), bits(1.0 / 3.0));
    assert_eq!(double_add(bits(0.5), bits(1.0)), bits(1.5));
    assert_eq!(double_add(bits(9007199254740992.0), bits(1.0)), bits(9007199254740992.0));
    assert_eq!(double_add(bits(0.1), bits(0.2)), bits(0.30000000000000004));
    assert_eq!(double_sub(bits(1.0), bits(1.0)), bits(0.0));
    assert_eq!(double_sub(bits(-1.0), bits(-1.0)), bits(0.0));
    assert_eq!(double_add(bits(-0.0), bits(-0.0)), bits(-0.0));
    assert_eq!(double_mul(bits(-0.0), bits(5.0)), bits(-0.0));
    assert_eq!(double_mul(bits(f64::MAX), bits(2.0)), bits(f64::INFINITY));
    assert_eq!(double_div(bits(5e-324), bits(2.0)), bits(0.0));
    assert_eq!(double_div(bits(1.5e-323), bits(2.0)), bits(1e-323));
}

#[test]
fn packing_rounds_to_the_nearest_even() {
    assert_eq!(pack(false, 1, 0, false), 1.0f64.to_bits());
    assert_eq!(pack(true, 3, -1, false), (-1.5f64).to_bits());
    assert_eq!(pack(false, (1 << 53) + 1, 0, false), 9007199254740992.0f64.to_bits());
    assert_eq!(pack(false, (1 << 53) + 3, 0, false), 9007199254740996.0f64.to_bits());
    assert_eq!(pack(false, 1 << 63, -10, true), (9223372036854775808.0f64 / 1024.0).to_bits());
    assert_eq!(pack(false, (1 << 63) + (1 << 10), 0, true), 9223372036854777856.0f64.to_bits());
    assert_eq!(pack(false, 1, -1074, false), 5e-324f64.to_bits());
    assert_eq!(pack(false, 1, -1075, false), 0.0f64.to_bits());
    assert_eq!(pack(false, 3, -1075, false), 1e-323f64.to_bits());
    assert_eq!(pack(false, 1, 1024, false), f64::INFINITY.to_bits());
    assert_eq!(pack(true, 0, 5, false), (-0.0f64).to_bits());
}
