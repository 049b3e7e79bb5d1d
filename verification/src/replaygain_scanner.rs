//! The measurement result and the per-track gain record.
//!
//! The EBU R128 measurement itself is an outside collaborator; it reports
//! integrated loudness, loudness range and true peak, which the caller
//! hands over in fixed point. This module assembles those numbers with the
//! computed gain into the immutable record the tag writer consumes.

use vstd::prelude::*;

use crate::gain::REFERENCE_LOUDNESS_CENTI;
use crate::loudness_types::{Decibel, LinearLoudness, LoudnessUnitFullScale};

verus! {

/// What one loudness measurement reported for one file.
#[derive(Clone, Debug)]
pub struct ScanResult {
    /// The highest reconstructed sample amplitude.
    pub true_peak: LinearLoudness,
    /// The spread of short-term loudness across the track.
    pub loudness_range: Decibel,
    /// The gated integrated loudness of the whole track.
    pub integrated_loudness: LoudnessUnitFullScale,
}

impl ScanResult {
    /// All three measured scalars are inside the working range.
    pub open spec fn wf(&self) -> bool {
        &&& self.true_peak.wf()
        &&& self.loudness_range.wf()
        &&& self.integrated_loudness.wf()
    }

    /// Packs one measurement's three statistics.
    pub fn new(
        integrated_loudness: LoudnessUnitFullScale,
        loudness_range: Decibel,
        true_peak: LinearLoudness,
    ) -> (r: Self)
        ensures
            r.integrated_loudness == integrated_loudness,
            r.loudness_range == loudness_range,
            r.true_peak == true_peak,
    {
        ScanResult { true_peak, loudness_range, integrated_loudness }
    }
}

/// The immutable per-file record the tag-write state machine consumes:
/// one file, its computed gain, and the measurement it came from.
#[derive(Clone, Debug)]
pub struct TrackGain {
    /// The scanned file.
    pub filepath: String,
    /// The gain a player should apply.
    pub gain: Decibel,
    /// The measured true peak.
    pub true_peak: LinearLoudness,
    /// The measured loudness range.
    pub range: Decibel,
    /// The reference loudness the gain steers toward (-18 LUFS).
    pub reference_loudness: LoudnessUnitFullScale,
}

impl TrackGain {
    /// All scalars are inside the working range.
    pub open spec fn wf(&self) -> bool {
        &&& self.gain.wf()
        &&& self.true_peak.wf()
        &&& self.range.wf()
        &&& self.reference_loudness.wf()
    }
}

/// Combines a file's measurement with its computed gain into the track
/// record; the reference loudness is the fixed -18.00 LUFS.
pub fn get_track_gain(filepath: String, scan: &ScanResult, gain: Decibel) -> (t: TrackGain)
    ensures
        t.filepath == filepath,
        t.gain == gain,
        t.true_peak == scan.true_peak,
        t.range == scan.loudness_range,
        t.reference_loudness.centi_lufs == REFERENCE_LOUDNESS_CENTI,
        scan.wf() && gain.wf() ==> t.wf(),
{
    TrackGain {
        filepath,
        gain,
        true_peak: scan.true_peak,
        range: scan.loudness_range,
        reference_loudness: LoudnessUnitFullScale::new(REFERENCE_LOUDNESS_CENTI),
    }
}

} // verus!
