//! The unit algebra: conversions, arithmetic, Q7.8 encoding, formatting
//! and parsing of the fixed-point loudness scalars.

use loudgain_rust::error::ScanError;
use loudgain_rust::loudness_types::{Decibel, LinearLoudness, LoudnessUnit, LoudnessUnitFullScale};

#[test]
fn q78_of_one_db_is_256() {
    assert_eq!(Decibel::new(100).to_q78num(), 256);
}

#[test]
fn q78_of_minus_half_db_is_minus_128() {
    assert_eq!(Decibel::new(-50).to_q78num(), -128);
}

#[test]
fn q78_rounds_ties_away_from_zero() {
    // 0.01 dB * 256 = 2.56 -> 3; symmetric for the negative value.
    assert_eq!(Decibel::new(1).to_q78num(), 3);
    assert_eq!(Decibel::new(-1).to_q78num(), -3);
    assert_eq!(Decibel::new(0).to_q78num(), 0);
}

#[test]
fn db_formats_with_two_decimals_and_suffix() {
    assert_eq!(Decibel::new(200).format(), "2.00 dB");
    assert_eq!(Decibel::new(0).format(), "0.00 dB");
    assert_eq!(Decibel::new(-50).format(), "-0.50 dB");
    assert_eq!(Decibel::new(-5).format(), "-0.05 dB");
    assert_eq!(Decibel::new(123456).format(), "1234.56 dB");
}

#[test]
fn lu_and_lufs_format_with_their_suffixes() {
    assert_eq!(LoudnessUnit::new(123).format(), "1.23 LU");
    assert_eq!(LoudnessUnitFullScale::new(-1800).format(), "-18.00 LUFS");
}

#[test]
fn linear_formats_with_seven_decimals_and_no_suffix() {
    assert_eq!(LinearLoudness::new(9_000_000).format(), "0.9000000");
    assert_eq!(LinearLoudness::new(12_345_678).format(), "1.2345678");
    assert_eq!(LinearLoudness::new(0).format(), "0.0000000");
}

#[test]
fn db_family_conversions_keep_the_number() {
    let d = Decibel::new(-314);
    assert_eq!(d.as_LUFS().centi_lufs, -314);
    assert_eq!(d.as_LU().centi_lu, -314);
    assert_eq!(LoudnessUnitFullScale::new(-314).as_dB().centi_db, -314);
}

#[test]
fn db_and_lufs_arithmetic_is_exact() {
    assert_eq!(Decibel::new(600).plus(&Decibel::new(-50)).centi_db, 550);
    assert_eq!(Decibel::new(600).minus(&Decibel::new(700)).centi_db, -100);
    let a = LoudnessUnitFullScale::new(-1800);
    let b = LoudnessUnitFullScale::new(-2000);
    assert_eq!(a.minus(&b).centi_lufs, 200);
    assert_eq!(a.plus(&b).centi_lufs, -3800);
}

#[test]
fn linear_product_and_ratio_round_to_nearest() {
    // 2.0 * 0.45 = 0.9 exactly.
    let p = LinearLoudness::new(20_000_000).times(&LinearLoudness::new(4_500_000));
    assert_eq!(p.units, 9_000_000);
    // 1.0 / 0.5 = 2.0 exactly.
    let q = LinearLoudness::new(10_000_000).divided_by(&LinearLoudness::new(5_000_000));
    assert_eq!(q.units, 20_000_000);
}

#[test]
fn linear_ordering_compares_amplitudes() {
    let lo = LinearLoudness::new(8_912_509);
    let hi = LinearLoudness::new(19_952_623);
    assert!(hi.exceeds(&lo));
    assert!(!lo.exceeds(&hi));
    assert!(!lo.exceeds(&lo));
}

#[test]
fn parse_accepts_plain_and_suffixed_values() {
    assert_eq!(Decibel::parse("2.00 dB").unwrap().centi_db, 200);
    assert_eq!(Decibel::parse("2").unwrap().centi_db, 200);
    assert_eq!(Decibel::parse("-0.5").unwrap().centi_db, -50);
    assert_eq!(Decibel::parse("+3.14").unwrap().centi_db, 314);
    assert_eq!(LoudnessUnitFullScale::parse("-18.0 LUFS").unwrap().centi_lufs, -1800);
    assert_eq!(LoudnessUnitFullScale::parse("-1").unwrap().centi_lufs, -100);
}

#[test]
fn parse_ignores_an_unrecognized_suffix() {
    // The unit suffix is not checked: the value is read as unit-less.
    assert_eq!(Decibel::parse("2.00 LUFS").unwrap().centi_db, 200);
}

#[test]
fn parse_rounds_excess_fraction_digits_to_nearest() {
    assert_eq!(Decibel::parse("3.145").unwrap().centi_db, 315);
    assert_eq!(Decibel::parse("3.1449").unwrap().centi_db, 314);
    assert_eq!(Decibel::parse("-3.145").unwrap().centi_db, -315);
}

#[test]
fn parse_accepts_bare_dot_forms() {
    assert_eq!(Decibel::parse(".5").unwrap().centi_db, 50);
    assert_eq!(Decibel::parse("1.").unwrap().centi_db, 100);
}

#[test]
fn parse_accepts_exponent_form_literals() {
    assert_eq!(Decibel::parse("1e3").unwrap().centi_db, 100_000);
    assert_eq!(Decibel::parse("2e0").unwrap().centi_db, 200);
    assert_eq!(Decibel::parse("1E2").unwrap().centi_db, 10_000);
    assert_eq!(Decibel::parse("12.34e1").unwrap().centi_db, 12_340);
    assert_eq!(Decibel::parse("5e-1").unwrap().centi_db, 50);
    // 1.5e-2 = 0.015, rounded to hundredths with ties away from zero.
    assert_eq!(Decibel::parse("1.5e-2").unwrap().centi_db, 2);
    assert_eq!(Decibel::parse("-2.5e+1").unwrap().centi_db, -2500);
    assert_eq!(Decibel::parse("1e2 dB").unwrap().centi_db, 10_000);
    // Underflow rounds to zero; a zero mantissa is zero whatever the exponent.
    assert_eq!(Decibel::parse("1e-999").unwrap().centi_db, 0);
    assert_eq!(Decibel::parse("0e99").unwrap().centi_db, 0);
}

#[test]
fn parse_rejects_malformed_exponent_forms() {
    for bad in ["1e", "e3", "1e+", "1e3.5", "1e2e3", "1e1001", "1e999"] {
        match Decibel::parse(bad) {
            Err(ScanError::FormatError(_)) => {}
            other => panic!("expected FormatError for {:?}, got {:?}", bad, other),
        }
    }
}

#[test]
fn parse_rejects_malformed_numbers() {
    for bad in ["", "abc", "--1", "1.2.3", ".", "-", "+", " 2.0", "2,0", "inf", "nan"] {
        match Decibel::parse(bad) {
            Err(ScanError::FormatError(_)) => {}
            other => panic!("expected FormatError for {:?}, got {:?}", bad, other),
        }
    }
}

#[test]
fn formatting_then_parsing_returns_the_same_value() {
    for centi in [0i64, 1, -1, 200, -50, -5, 1800, -1800, 123456, -987654321] {
        let d = Decibel::new(centi);
        assert_eq!(Decibel::parse(&d.format()).unwrap(), d);
        let l = LoudnessUnitFullScale::new(centi);
        assert_eq!(LoudnessUnitFullScale::parse(&l.format()).unwrap(), l);
    }
}

#[test]
fn parse_rejects_out_of_range_magnitudes_but_ignores_leading_zeros() {
    match Decibel::parse("123456789012") {
        Err(ScanError::FormatError(_)) => {}
        other => panic!("expected FormatError, got {:?}", other),
    }
    assert_eq!(Decibel::parse("000000000001.0").unwrap().centi_db, 100);
}
