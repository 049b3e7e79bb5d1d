//! The gain calculator and the clip-avoidance decision.

use loudgain_rust::args::Config;
use loudgain_rust::error::ScanError;
use loudgain_rust::gain::{calculate_gain, clip_check, ClipCheck};
use loudgain_rust::loudness_types::{Decibel, LinearLoudness, LoudnessUnitFullScale};

/// Converts a decibel value to the fixed-point linear amplitude the
/// library works with (`10^(dB/20)`); the floating-point side of the
/// boundary the clip-avoidance caller owns.
fn db_to_linear_units(db: f64) -> i64 {
    (10f64.powf(db / 20.0) * 1e7).round() as i64
}

#[test]
fn gain_at_reference_loudness_is_zero_for_any_peak() {
    // Measured loudness equal to the -18 LUFS reference, default pregain,
    // clip avoidance disabled: the gain is exactly 0 dB whatever the peak.
    let cfg = Config::default();
    let gain = calculate_gain(&cfg, LoudnessUnitFullScale::new(-1800));
    assert_eq!(gain.centi_db, 0);
}

#[test]
fn gain_is_reference_minus_measured_plus_pregain() {
    let mut cfg = Config::default();
    let gain = calculate_gain(&cfg, LoudnessUnitFullScale::new(-2000));
    assert_eq!(gain.centi_db, 200);
    cfg.pregain = Decibel::new(150);
    let gain = calculate_gain(&cfg, LoudnessUnitFullScale::new(-2000));
    assert_eq!(gain.centi_db, 350);
}

#[test]
fn clip_avoidance_subtracts_the_excess_over_the_ceiling() {
    // gain = 6 dB, true peak = 1.0 linear, ceiling = -1 dB linear:
    // the boosted peak 10^(6/20) * 1.0 ~= 1.995 exceeds ~0.891, so the
    // gain is lowered by 20*log10(1.995/0.891) ~= 7.0 dB to ~-1.0 dB.
    let gain = Decibel::new(600);
    let gain_linear = LinearLoudness::new(db_to_linear_units(6.0));
    assert_eq!(gain_linear.units, 19_952_623);
    let true_peak = LinearLoudness::new(10_000_000);
    let ceiling = LinearLoudness::new(db_to_linear_units(-1.0));
    assert_eq!(ceiling.units, 8_912_509);

    match clip_check(&gain_linear, &true_peak, &ceiling).unwrap() {
        ClipCheck::Exceeds { peak_after_gain, ratio } => {
            assert_eq!(peak_after_gain.units, 19_952_623);
            assert_eq!(ratio.units, 22_387_212);
            let excess_db = 20.0 * (ratio.units as f64 / 1e7).log10();
            let excess = Decibel::new((excess_db * 100.0).round() as i64);
            assert_eq!(excess.centi_db, 700);
            assert_eq!(gain.minus(&excess).centi_db, -100);
        }
        other => panic!("expected Exceeds, got {:?}", other),
    }
}

#[test]
fn clip_avoidance_reports_a_peak_within_the_ceiling() {
    // gain = -5 dB on a 0.9 peak stays under the -1 dB ceiling; the
    // decision returns the boosted peak for the caller's dB conversion.
    let gain_linear = LinearLoudness::new(db_to_linear_units(-5.0));
    let true_peak = LinearLoudness::new(9_000_000);
    let ceiling = LinearLoudness::new(db_to_linear_units(-1.0));
    match clip_check(&gain_linear, &true_peak, &ceiling).unwrap() {
        ClipCheck::Within { peak_after_gain } => {
            assert_eq!(peak_after_gain.units, 5_061_072);
        }
        other => panic!("expected Within, got {:?}", other),
    }
}

#[test]
fn clip_check_rejects_a_degenerate_ceiling() {
    // A ceiling of one fixed-point unit makes the ratio overflow the
    // working range: a NumericError, not a bogus gain.
    let gain_linear = LinearLoudness::new(1_000_000_000_000);
    let true_peak = LinearLoudness::new(1_000_000_000_000);
    let ceiling = LinearLoudness::new(1);
    match clip_check(&gain_linear, &true_peak, &ceiling) {
        Err(ScanError::NumericError(_)) => {}
        other => panic!("expected NumericError, got {:?}", other),
    }
}
