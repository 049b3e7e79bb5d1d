//! The gain calculator: from a measured integrated loudness to the gain a
//! player should apply, with optional avoidance of clipping.
//!
//! The decibel-domain arithmetic is exact in fixed point and is computed and
//! proved here. The two transcendental conversions the clip-avoidance path
//! needs (`10^(dB/20)` into the linear domain and `20*log10` back out of it)
//! are the caller's floating-point work: the caller linearizes the gain and
//! the ceiling, asks `clip_check` for the decision, and converts the returned
//! amplitude back to decibels.

use vstd::prelude::*;

use crate::args::Config;
use crate::error::ScanError;
use crate::loudness_types::{
    spec_lin_div, spec_lin_mul, Decibel, LinearLoudness, LoudnessUnitFullScale,
};

verus! {

/// The reference loudness the gain steers toward: -18.00 LUFS, in hundredths.
pub const REFERENCE_LOUDNESS_CENTI: i64 = -1800;

/// The gain that brings `int_loudness` to the reference loudness, plus the
/// configured pregain: `(reference - measured) + pregain`, exact in
/// hundredths of a dB. Clip avoidance, when enabled, is applied afterwards
/// via `clip_check`.
pub fn calculate_gain(cfg: &Config, int_loudness: LoudnessUnitFullScale) -> (gain: Decibel)
    requires
        cfg.wf(),
        int_loudness.wf(),
    ensures
        gain.centi_db == REFERENCE_LOUDNESS_CENTI - int_loudness.centi_lufs
            + cfg.pregain.centi_db,
{
    let reference_loudness = LoudnessUnitFullScale::new(REFERENCE_LOUDNESS_CENTI);
    reference_loudness.minus(&int_loudness).as_dB().plus(&cfg.pregain)
}

/// What the clip-avoidance comparison found.
///
/// Either way the caller still owes one linear-to-dB conversion: of
/// `ratio` (to know how far to lower the gain) when the ceiling is
/// exceeded, or of `peak_after_gain` when it is not. In the latter case
/// the tool this library follows returns the dB value of that peak — not
/// the gain unchanged, which is almost certainly what was meant. The
/// behavior is preserved deliberately rather than silently corrected,
/// and is surfaced here so a caller can choose.
#[derive(Clone, Copy, Debug, PartialEq, Eq, Structural)]
pub enum ClipCheck {
    /// The boosted peak stays at or below the ceiling.
    Within { peak_after_gain: LinearLoudness },
    /// The boosted peak would clip: it exceeds the ceiling by `ratio`.
    Exceeds { peak_after_gain: LinearLoudness, ratio: LinearLoudness },
}

/// The clip-avoidance decision: multiplies the linearized gain with the
/// measured true peak and compares the result against the linearized
/// maximum-true-peak ceiling.
///
/// Fails with a `NumericError` only when the peak-to-ceiling ratio is too
/// large for the fixed-point range (a degenerate ceiling).
pub fn clip_check(
    gain_linear: &LinearLoudness,
    true_peak: &LinearLoudness,
    max_peak_linear: &LinearLoudness,
) -> (r: Result<ClipCheck, ScanError>)
    requires
        gain_linear.wf(),
        true_peak.wf(),
        max_peak_linear.units > 0,
    ensures
        ({
            let peak = spec_lin_mul(gain_linear.units as int, true_peak.units as int);
            let ratio = spec_lin_div(peak, max_peak_linear.units as int);
            if peak > max_peak_linear.units {
                if ratio <= i64::MAX {
                    r == Ok::<ClipCheck, ScanError>(
                        ClipCheck::Exceeds {
                            peak_after_gain: LinearLoudness { units: peak as i64 },
                            ratio: LinearLoudness { units: ratio as i64 },
                        },
                    )
                } else {
                    r matches Err(e) && e is NumericError
                }
            } else {
                r == Ok::<ClipCheck, ScanError>(
                    ClipCheck::Within {
                        peak_after_gain: LinearLoudness { units: peak as i64 },
                    },
                )
            }
        }),
{
    let a = gain_linear.units as u128;
    let b = true_peak.units as u128;
    let m = max_peak_linear.units as u128;
    proof {
        assert(a * b <= 1_000_000_000_000u128 * 1_000_000_000_000u128) by (nonlinear_arith)
            requires
                a <= 1_000_000_000_000u128,
                b <= 1_000_000_000_000u128,
        ;
    }
    let peak: u128 = (a * b + 5_000_000) / 10_000_000;
    proof {
        assert(peak == spec_lin_mul(gain_linear.units as int, true_peak.units as int));
    }
    let peak_i = peak as i64;
    if peak_i > max_peak_linear.units {
        let ratio: u128 = (2 * peak * 10_000_000 + m) / (2 * m);
        proof {
            assert(ratio == spec_lin_div(peak as int, max_peak_linear.units as int));
        }
        if ratio <= i64::MAX as u128 {
            Ok(
                ClipCheck::Exceeds {
                    peak_after_gain: LinearLoudness::new(peak_i),
                    ratio: LinearLoudness::new(ratio as i64),
                },
            )
        } else {
            Err(
                ScanError::NumericError(
                    String::from_str("peak-to-ceiling ratio out of range in clip avoidance"),
                ),
            )
        }
    } else {
        Ok(ClipCheck::Within { peak_after_gain: LinearLoudness::new(peak_i) })
    }
}

} // verus!
