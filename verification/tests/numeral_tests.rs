use ellex_core::numeral::{number_string, push_numeral};
use ellex_core::EllexValue;

fn shown(x: f64) -> String {
    number_string(x.to_bits())
}

#[test]
fn numerals_are_those_of_the_standard_formatting() {
    let samples: Vec<f64> = vec![
        0.0,
        1.0,
        2.0,
        10.0,
        100.0,
        0.5,
        0.1,
        0.2,
        0.3,
        0.30000000000000004,
        1.0 / 3.0,
        2.0 / 3.0,
        36.6,
        3.14,
        42.5,
        0.375,
        1234.0625,
        1e-5,
        1e-7,
        123456789.125,
        1e15,
        1e16,
        1e17,
        1e21,
        1e22,
        1e23,
        9007199254740991.0,
        9007199254740992.0,
        9007199254740994.0,
        2251799813685248.5,
        4503599627370496.0,
        f64::EPSILON,
        1.0 + f64::EPSILON,
        1.0 - f64::EPSILON / 2.0,
        f64::MAX,
        f64::MIN_POSITIVE,
        f64::MIN_POSITIVE / 2.0,
        5e-324,
        1.5e-323,
        1e-320,
        1e300,
        1e-300,
        1.7976931348623157e308,
        2.2250738585072014e-308,
        2.225073858507201e-308,
        9.5367431640625e-7,
        7.450580596923828e-9,
        std::f64::consts::PI,
        std::f64::consts::E,
        f64::INFINITY,
    ];
    for x in samples {
        assert_eq!(shown(x), format!("{}", x), "{x:e}");
        assert_eq!(shown(-x), format!("{}", -x), "-{x:e}");
    }
    assert_eq!(shown(f64::NAN), "NaN");
    assert_eq!(shown(36.6), "36.6");
    assert_eq!(shown(-0.0), "-0");
    assert_eq!(shown(1e21), "1000000000000000000000");
}

#[test]
fn numerals_of_powers_of_two_know_their_nearer_neighbour() {
    let mut x: f64 = 1.0;
    for _ in 0..1074 {
        assert_eq!(shown(x), format!("{}", x), "{x:e}");
        x /= 2.0;
    }
    let mut x: f64 = 1.0;
    for _ in 0..1023 {
        assert_eq!(shown(x), format!("{}", x), "{x:e}");
        x *= 2.0;
    }
}

#[test]
fn numerals_of_many_patterns_read_back() {
    let mut state: u64 = 0x2545_F491_4F6C_DD1D;
    let mut next = || {
        state ^= state << 13;
        state ^= state >> 7;
        state ^= state << 17;
        state
    };
    // Numbers of everyday size.
    for _ in 0..3000 {
        let bits = (next() & 0x000F_FFFF_FFFF_FFFF) | ((1023 - 40 + next() % 100) << 52);
        let x = f64::from_bits(bits);
        let text = shown(x);
        assert_eq!(text, format!("{}", x), "{x:e}");
        assert_eq!(text.parse::<f64>().unwrap().to_bits(), bits);
    }
    // Numbers of any size.
    for _ in 0..150 {
        let x = f64::from_bits(next());
        if x.is_nan() {
            continue;
        }
        assert_eq!(shown(x), format!("{}", x), "{x:e}");
    }
}

#[test]
fn numerals_are_appended() {
    let mut text = "x = ".to_string();
    push_numeral(&mut text, 0.25f64.to_bits());
    assert_eq!(text, "x = 0.25");
    assert_eq!(EllexValue::Number(0.1f64.to_bits()).to_string(), "0.1");
    assert_eq!(EllexValue::Number(f64::NEG_INFINITY.to_bits()).to_string(), "-inf");
}

fn debugged(x: f64) -> String {
    let mut text = String::new();
    ellex_core::numeral::push_debug_numeral(&mut text, x.to_bits());
    text
}

#[test]
fn debug_numerals_have_a_fraction_or_an_exponent() {
    assert_eq!(debugged(0.0), "0.0");
    assert_eq!(debugged(-0.0), "-0.0");
    assert_eq!(debugged(1.0), "1.0");
    assert_eq!(debugged(-42.0), "-42.0");
    assert_eq!(debugged(0.5), "0.5");
    assert_eq!(debugged(1234.0625), "1234.0625");
    assert_eq!(debugged(1e15), "1000000000000000.0");
    assert_eq!(debugged(9999999999999998.0), "9999999999999998.0");
    assert_eq!(debugged(1e16), "1e16");
    assert_eq!(debugged(1.5e16), "1.5e16");
    assert_eq!(debugged(1e-4), "0.0001");
    assert_eq!(debugged(0.00009999), "9.999e-5");
    assert_eq!(debugged(1.5e-7), "1.5e-7");
    assert_eq!(debugged(-2.5e300), "-2.5e300");
    assert_eq!(debugged(f64::MAX), "1.7976931348623157e308");
    assert_eq!(debugged(f64::MIN_POSITIVE), "2.2250738585072014e-308");
    assert_eq!(debugged(f64::from_bits(1)), "5e-324");
    assert_eq!(debugged(f64::INFINITY), "inf");
    assert_eq!(debugged(f64::NEG_INFINITY), "-inf");
    assert_eq!(debugged(f64::NAN), "NaN");
}

#[test]
fn debug_numerals_are_those_of_the_standard_formatting() {
    let mut state: u64 = 0x9E37_79B9_7F4A_7C15;
    let mut next = || {
        state ^= state << 13;
        state ^= state >> 7;
        state ^= state << 17;
        state
    };
    for _ in 0..3000 {
        let bits = (next() & 0x800F_FFFF_FFFF_FFFF) | ((1023 - 60 + next() % 130) << 52);
        let x = f64::from_bits(bits);
        assert_eq!(debugged(x), format!("{:?}", x), "{x:e}");
    }
    for _ in 0..150 {
        let x = f64::from_bits(next());
        if x.is_nan() {
            continue;
        }
        assert_eq!(debugged(x), format!("{:?}", x), "{x:e}");
    }
    for k in 0..400i32 {
        let x = 10f64.powi(k - 200);
        assert_eq!(debugged(x), format!("{:?}", x), "{x:e}");
        let y = f64::from_bits(x.to_bits() - 1);
        assert_eq!(debugged(y), format!("{:?}", y), "{y:e}");
        let z = (k as f64) * 1000.0;
        assert_eq!(debugged(z), format!("{:?}", z), "{z:e}");
    }
}
