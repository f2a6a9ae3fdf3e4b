use ellex_core::number::{
    negate, number_from_decimal, number_from_i64, number_from_ratio, number_from_u64,
    number_from_whole, number_is_nan, number_is_zero, number_less, number_to_index,
    number_whole, numbers_equal,
};

fn samples() -> Vec<f64> {
    vec![
        0.0,
        -0.0,
        1.0,
        -1.0,
        2.0,
        3.0,
        0.5,
        -0.5,
        1.5,
        42.0,
        -42.0,
        3.14,
        1e15,
        9007199254740991.0,
        9007199254740992.0,
        -9007199254740992.0,
        9007199254740994.0,
        1e300,
        -1e300,
        5e-324,
        f64::MIN_POSITIVE,
        f64::MAX,
        f64::INFINITY,
        f64::NEG_INFINITY,
        f64::NAN,
    ]
}

fn is_whole_in_range(x: f64) -> bool {
    x.is_finite() && x.fract() == 0.0 && x.abs() <= 9007199254740992.0
}

fn same_double(a: f64, b: f64) -> bool {
    a.to_bits() == b.to_bits()
}

#[test]
fn comparisons_agree_with_doubles() {
    for a in samples() {
        for b in samples() {
            assert_eq!(numbers_equal(a.to_bits(), b.to_bits()), a == b, "{a} == {b}");
            assert_eq!(number_less(a.to_bits(), b.to_bits()), a < b, "{a} < {b}");
        }
        assert_eq!(number_is_nan(a.to_bits()), a.is_nan());
        assert_eq!(number_is_zero(a.to_bits()), a == 0.0);
        assert_eq!(negate(a.to_bits()), (-a).to_bits());
    }
}

#[test]
fn whole_numbers_are_recognized() {
    for a in samples() {
        let expected = if is_whole_in_range(a) { Some(a.abs() as u64) } else { None };
        assert_eq!(number_whole(a.to_bits()), expected, "{a}");
    }
}

#[test]
fn conversion_from_integers_rounds_like_a_cast() {
    let values: Vec<u64> = vec![
        0,
        1,
        2,
        3,
        7,
        42,
        1000,
        (1 << 52) - 1,
        1 << 52,
        (1 << 53) - 1,
        1 << 53,
        (1 << 53) + 1,
        (1 << 53) + 2,
        (1 << 53) + 3,
        (1 << 54) + 2,
        (1 << 54) + 6,
        (1 << 63) - 1,
        1 << 63,
        (1 << 63) + 1024,
        (1 << 63) + 1025,
        (1 << 63) + 3072,
        u64::MAX - 1024,
        u64::MAX,
        12345678901234567890,
    ];
    for n in values {
        assert_eq!(number_from_u64(n), (n as f64).to_bits(), "{n}");
    }
    for n in [0i64, 1, -1, 42, -42, i64::MAX, i64::MIN, i64::MIN + 1, 9007199254740993] {
        let expected = if n == 0 { 0.0f64.to_bits() } else { (n as f64).to_bits() };
        assert_eq!(number_from_i64(n), expected, "{n}");
    }
    assert_eq!(number_from_whole(true, 0), (-0.0f64).to_bits());
    assert_eq!(number_from_whole(true, 5), (-5.0f64).to_bits());
}

#[test]
fn index_conversion_agrees_with_a_cast() {
    for a in samples() {
        assert_eq!(number_to_index(a.to_bits()), a as usize, "{a}");
    }
    for a in [0.999, 1.0, 1.999, 2.5, 1e10, 1.8446744073709552e19, 1.8446744073709550e19, 4503599627370497.5] {
        assert_eq!(number_to_index(f64::to_bits(a)), a as usize, "{a}");
    }
}

#[test]
fn decimals_round_like_the_standard_parser() {
    let cases: Vec<(u64, u32, &str)> = vec![
        (314, 2, "3.14"),
        (1, 1, "0.1"),
        (2, 1, "0.2"),
        (3, 1, "0.3"),
        (5, 1, "0.5"),
        (25, 2, "0.25"),
        (1, 19, "0.0000000000000000001"),
        (9999999999999999999, 19, "0.9999999999999999999"),
        (9999999999999999999, 1, "999999999999999999.9"),
        (123456789012345678, 9, "123456789.012345678"),
        (9007199254740993, 1, "900719925474099.3"),
        (17976931348623157, 16, "1.7976931348623157"),
        (22250738585072014, 3, "22250738585072.014"),
        (1, 3, "0.001"),
        (0, 5, "0.00000"),
        (100, 2, "1.00"),
    ];
    for (mantissa, scale, text) in cases {
        let expected: f64 = text.parse().unwrap();
        assert!(
            same_double(f64::from_bits(number_from_decimal(mantissa, scale)), expected),
            "{text}"
        );
    }
}

#[test]
fn ratios_round_to_nearest_even() {
    let cases: Vec<(u64, u64)> = vec![
        (1, 1),
        (1, 3),
        (2, 3),
        (1, 10),
        (22, 7),
        (u64::MAX, 1),
        (u64::MAX, u64::MAX),
        (1, u64::MAX),
        ((1 << 53) + 1, 1),
        ((1 << 53) + 1, 2),
        ((1 << 54) + 2, 4),
        (9007199254740993, 9007199254740992),
        (12345678901234567890, 987654321),
    ];
    for (n, d) in cases {
        let expected = if d == 1 {
            n as f64
        } else if n == (1 << 53) + 1 && d == 2 {
            4503599627370496.5_f64
        } else {
            (n as f64) / (d as f64)
        };
        let got = f64::from_bits(number_from_ratio(n, d));
        if (n as f64) as u64 == n && (d as f64) as u64 == d {
            assert!(same_double(got, expected), "{n}/{d}: {got} vs {expected}");
        } else {
            assert!((got - expected).abs() <= expected.abs() * 1e-15, "{n}/{d}");
        }
    }
    assert!(same_double(f64::from_bits(number_from_ratio(1, 3)), 1.0 / 3.0));
}
