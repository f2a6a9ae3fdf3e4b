use ellex_core::numeral::number_string;
use ellex_core::reading::{double_from_decimal, read_number};

fn read(s: &str) -> Option<u64> {
    read_number(&s.chars().collect())
}

fn agrees(s: &str) {
    let got = read(s);
    match s.parse::<f64>() {
        Ok(x) if x.is_nan() => assert!(f64::from_bits(got.unwrap()).is_nan(), "{s}"),
        Ok(x) => assert_eq!(got, Some(x.to_bits()), "{s}: {:?}", got.map(f64::from_bits)),
        Err(_) => assert_eq!(got, None, "{s}"),
    }
}

#[test]
fn texts_are_read_like_the_standard_parser() {
    let texts = [
        "0", "-0", "+0", "7", "42", "-42", "+42", "007", "3.25", "-3.25", "0.1", "0.2", "0.3",
        "36.6", "1.", ".5", "-.5", "+.5", "5.e3", ".5e1", "1e5", "1E5", "1e+5", "1e-5", "1.5e300",
        "1e308", "1.7976931348623157e308", "1.7976931348623158e308", "1.7976931348623159e308",
        "1.8e308", "1e309", "1e400", "1e99999999999999999999", "-1e99999999999999999999",
        "1e-99999999999999999999", "0e99999999999999999999", "2.2250738585072014e-308",
        "2.2250738585072011e-308", "4.9e-324", "5e-324", "2.4703282292062328e-324",
        "2.4703282292062327e-324", "2.4703282292062329e-324", "1e-323", "1e-324", "1e-400",
        "9007199254740992", "9007199254740993", "9007199254740994", "9007199254740995",
        "9007199254740993.0000000000000000000000000001", "9007199254740992.9999999999",
        "18446744073709551616", "18446744073709551615", "12345678901234567890",
        "123456789012345678901234567890", "340282366920938463463374607431768211456",
        "0.000000000000000000000000000000000000000000000000000001",
        "100000000000000000000000000000000000000000000000000000000",
        "0.30000000000000004", "0.1e1", "10e-1", "1.0000000000000002", "1.00000000000000011102",
        "1.00000000000000011103", "1.0000000000000003330", "0.5000000000000000000000000000",
        "179769313486231580793728971405303415079934132710037826936173778980444968292764750946649017977587207096330286416692887910946555547851940402630657488671505820681908902000708383676273854845817711531764475730270069855571366959622842914819860834936475292719074168444365510704342711559699508093042880177904174497791.9999",
        "inf", "-inf", "+inf", "INF", "Inf", "infinity", "-Infinity", "INFINITY", "nan", "NaN",
        "-nan", "+NAN",
        "", "-", "+", ".", "-.", "e5", "1e", "1e+", "1e-", "1.e", "1 2", " 1", "1 ", "--1",
        "+-1", "1.2.3", "1e5.5", "1e5e5", "abc", "1a", "0x10", "infinit", "infinityy", "na",
        "nane", "1_000", "١٢٣",
    ];
    for s in texts {
        agrees(s);
    }
}

#[test]
fn numerals_read_back_as_their_numbers() {
    let mut state: u64 = 0x1234_5678_9ABC_DEF1;
    let mut next = || {
        state ^= state << 13;
        state ^= state >> 7;
        state ^= state << 17;
        state
    };
    for _ in 0..400 {
        let bits = next();
        let x = f64::from_bits(bits);
        if x.is_nan() {
            continue;
        }
        assert_eq!(read(&number_string(bits)), Some(bits), "{x:e}");
        // The same number with an exponent, and with more digits than it needs.
        agrees(&format!("{:e}", x));
        agrees(&format!("{:.25e}", x));
        agrees(&format!("{:.40e}", f64::from_bits(bits & 0x7FF0_0000_0000_0000)));
    }
    for _ in 0..3000 {
        let bits = (next() & 0x800F_FFFF_FFFF_FFFF) | ((1023 - 60 + next() % 140) << 52);
        let x = f64::from_bits(bits);
        assert_eq!(read(&number_string(bits)), Some(bits), "{x:e}");
        agrees(&format!("{:.20e}", x));
    }
}

#[test]
fn ties_between_two_doubles_go_to_the_even_one() {
    // Half way between 2^53 and 2^53 + 2, and a little to either side.
    assert_eq!(read("9007199254740993"), Some(9007199254740992.0f64.to_bits()));
    assert_eq!(read("9007199254740993.000000000000000000000000000000000001"), Some(9007199254740994.0f64.to_bits()));
    assert_eq!(read("9007199254740992.999999999999999999999999999999999999"), Some(9007199254740992.0f64.to_bits()));
    assert_eq!(read("9007199254740995"), Some(9007199254740996.0f64.to_bits()));
    // Half of the smallest number.
    let half = format!("{:.1100}", 5e-324f64 / 1.0).replace("4940656", "2470328");
    agrees(&half);
}

#[test]
fn digits_and_a_power_of_ten_make_a_number() {
    let digits = |s: &str| s.chars().rev().map(|c| c as u8 - b'0').collect::<Vec<u8>>();
    assert_eq!(double_from_decimal(false, &digits("15"), -1), 1.5f64.to_bits());
    assert_eq!(double_from_decimal(true, &digits("00015"), 2), (-1500.0f64).to_bits());
    assert_eq!(double_from_decimal(false, &digits("1"), 310), f64::INFINITY.to_bits());
    assert_eq!(double_from_decimal(false, &digits("1"), 308), 1e308f64.to_bits());
    assert_eq!(double_from_decimal(true, &digits("1"), -400), (-0.0f64).to_bits());
    assert_eq!(double_from_decimal(false, &digits("000"), 5), 0.0f64.to_bits());
    assert_eq!(double_from_decimal(false, &vec![], 5), 0.0f64.to_bits());
}
