//! The strongly-typed loudness unit algebra.
//!
//! Each unit wraps one scalar held exactly in fixed point at the precision
//! the value is printed and tagged with: decibel-like units in hundredths
//! (`centi_db`), linear amplitudes in ten-millionths (`units`). A value's
//! unit is fixed at construction; conversion between the decibel-like units
//! is numerically the identity, and cross-unit arithmetic is not offered.
//!
//! Conversions to and from the linear domain (`10^(dB/20)` and
//! `20*log10(linear)`) are transcendental and are the caller's
//! floating-point work; the caller hands the results back in fixed point.

use vstd::prelude::*;

use crate::decimal::{
    find_from, format_fixed, lemma_first_index_char, lemma_fixed_chars_no_space,
    lemma_format_parse_roundtrip, parse_fixed, spec_first_index, spec_fixed_chars,
    spec_parse_fixed,
};
use crate::error::ScanError;

verus! {

/// Largest magnitude (in hundredths of a dB) accepted by `to_q78num`;
/// keeps the Q7.8 computation inside `i32`.
pub const Q78_CENTI_BOUND: i64 = 800_000_000;

/// Largest magnitude (in hundredths) of a well-formed decibel-like value:
/// one million dB, far beyond any loudness a measurement can report.
pub const CENTI_BOUND: i64 = 100_000_000;

/// Largest well-formed linear amplitude, in ten-millionths: an amplitude of
/// `100_000` (one hundred dBFS above full scale). Keeps products of two
/// well-formed amplitudes inside the fixed-point range.
pub const LINEAR_UNITS_BOUND: i64 = 1_000_000_000_000;

/// A relative level in decibels, in hundredths.
#[derive(Clone, Copy, Debug, PartialEq, Eq, Structural)]
pub struct Decibel {
    pub centi_db: i64,
}

/// A relative loudness difference in loudness units (LU), in hundredths.
/// Numerically a decibel; semantically a delta.
#[derive(Clone, Copy, Debug, PartialEq, Eq, Structural)]
pub struct LoudnessUnit {
    pub centi_lu: i64,
}

/// An absolute loudness in loudness units full scale (LUFS), in hundredths.
/// Numerically equal to dB relative to digital full scale.
#[derive(Clone, Copy, Debug, PartialEq, Eq, Structural)]
pub struct LoudnessUnitFullScale {
    pub centi_lufs: i64,
}

/// A linear amplitude (for true-peak values and gain multipliers), in
/// ten-millionths. The only unit with an ordering: peaks are compared.
#[derive(Clone, Copy, Debug, PartialEq, Eq, Structural)]
pub struct LinearLoudness {
    pub units: i64,
}

/// The Q7.8 encoding of a decibel value held in hundredths:
/// `round(dB * 256)`, ties away from zero, as `f64::round` rounds.
pub open spec fn spec_q78(centi_db: int) -> int {
    if centi_db >= 0 {
        (centi_db * 256 + 50) / 100
    } else {
        -(((-centi_db) * 256 + 50) / 100)
    }
}

impl Decibel {
    /// Within the range the library computes and formats losslessly.
    pub open spec fn wf(&self) -> bool {
        -CENTI_BOUND <= self.centi_db <= CENTI_BOUND
    }

    /// A decibel value of `centi_db` hundredths.
    pub fn new(centi_db: i64) -> (r: Self)
        ensures
            r.centi_db == centi_db,
    {
        Decibel { centi_db }
    }

    /// Reads the value as absolute loudness: LUFS and dB share their
    /// reference point, so the number does not change.
    #[allow(non_snake_case)]
    pub fn as_LUFS(&self) -> (r: LoudnessUnitFullScale)
        ensures
            r.centi_lufs == self.centi_db,
    {
        LoudnessUnitFullScale { centi_lufs: self.centi_db }
    }

    /// Reads the value as a loudness delta in LU; numerically unchanged.
    #[allow(non_snake_case)]
    pub fn as_LU(&self) -> (r: LoudnessUnit)
        ensures
            r.centi_lu == self.centi_db,
    {
        LoudnessUnit { centi_lu: self.centi_db }
    }

    /// The Q7.8 fixed-point integer used by the Opus/Vorbis gain tag:
    /// `round(dB * 256)`, ties away from zero.
    pub fn to_q78num(&self) -> (r: i32)
        requires
            -Q78_CENTI_BOUND <= self.centi_db && self.centi_db <= Q78_CENTI_BOUND,
        ensures
            r as int == spec_q78(self.centi_db as int),
    {
        if self.centi_db >= 0 {
            let m: u64 = self.centi_db as u64;
            let q: u64 = (m * 256 + 50) / 100;
            q as i32
        } else {
            let m: u64 = (-self.centi_db) as u64;
            let q: u64 = (m * 256 + 50) / 100;
            -(q as i32)
        }
    }

    /// The sum of two decibel values.
    pub fn plus(&self, rhs: &Decibel) -> (r: Decibel)
        requires
            i64::MIN <= self.centi_db + rhs.centi_db <= i64::MAX,
        ensures
            r.centi_db == self.centi_db + rhs.centi_db,
    {
        Decibel { centi_db: self.centi_db + rhs.centi_db }
    }

    /// The difference of two decibel values.
    pub fn minus(&self, rhs: &Decibel) -> (r: Decibel)
        requires
            i64::MIN <= self.centi_db - rhs.centi_db <= i64::MAX,
        ensures
            r.centi_db == self.centi_db - rhs.centi_db,
    {
        Decibel { centi_db: self.centi_db - rhs.centi_db }
    }

    /// The textual form `"<value> dB"` with two decimals.
    pub fn format(&self) -> (s: String)
        requires
            self.centi_db != i64::MIN,
        ensures
            s@ == spec_db_string(self.centi_db as int),
    {
        let mut s = format_fixed(self.centi_db, 2);
        s.append(" dB");
        s
    }

    /// Parses a decibel value, with or without its `" dB"` suffix.
    /// Plain and exponent-form decimal literals are accepted; `inf`,
    /// `nan` and values beyond the fixed-point working range are a
    /// `FormatError` (fixed point cannot hold them).
    pub fn parse(s: &str) -> (r: Result<Decibel, ScanError>)
        ensures
            match r {
                Ok(v) => spec_parse_unit(s@, 2) == Some(v.centi_db as int),
                Err(e) => spec_parse_unit(s@, 2) is None && e is FormatError,
            },
    {
        match parse_centi(s) {
            Ok(c) => Ok(Decibel::new(c)),
            Err(e) => Err(e),
        }
    }
}

impl LoudnessUnit {
    /// Within the range the library computes and formats losslessly.
    pub open spec fn wf(&self) -> bool {
        -CENTI_BOUND <= self.centi_lu <= CENTI_BOUND
    }

    /// A loudness delta of `centi_lu` hundredths.
    pub fn new(centi_lu: i64) -> (r: Self)
        ensures
            r.centi_lu == centi_lu,
    {
        LoudnessUnit { centi_lu }
    }

    /// The textual form `"<value> LU"` with two decimals.
    pub fn format(&self) -> (s: String)
        requires
            self.centi_lu != i64::MIN,
        ensures
            s@ == spec_lu_string(self.centi_lu as int),
    {
        let mut s = format_fixed(self.centi_lu, 2);
        s.append(" LU");
        s
    }
}

impl LoudnessUnitFullScale {
    /// Within the range the library computes and formats losslessly.
    pub open spec fn wf(&self) -> bool {
        -CENTI_BOUND <= self.centi_lufs <= CENTI_BOUND
    }

    /// An absolute loudness of `centi_lufs` hundredths.
    pub fn new(centi_lufs: i64) -> (r: Self)
        ensures
            r.centi_lufs == centi_lufs,
    {
        LoudnessUnitFullScale { centi_lufs }
    }

    /// Reads the value as a decibel level; numerically unchanged.
    #[allow(non_snake_case)]
    pub fn as_dB(&self) -> (r: Decibel)
        ensures
            r.centi_db == self.centi_lufs,
    {
        Decibel { centi_db: self.centi_lufs }
    }

    /// The sum of two absolute loudness values.
    pub fn plus(&self, rhs: &LoudnessUnitFullScale) -> (r: LoudnessUnitFullScale)
        requires
            i64::MIN <= self.centi_lufs + rhs.centi_lufs <= i64::MAX,
        ensures
            r.centi_lufs == self.centi_lufs + rhs.centi_lufs,
    {
        LoudnessUnitFullScale { centi_lufs: self.centi_lufs + rhs.centi_lufs }
    }

    /// The difference of two absolute loudness values.
    pub fn minus(&self, rhs: &LoudnessUnitFullScale) -> (r: LoudnessUnitFullScale)
        requires
            i64::MIN <= self.centi_lufs - rhs.centi_lufs <= i64::MAX,
        ensures
            r.centi_lufs == self.centi_lufs - rhs.centi_lufs,
    {
        LoudnessUnitFullScale { centi_lufs: self.centi_lufs - rhs.centi_lufs }
    }

    /// The textual form `"<value> LUFS"` with two decimals.
    pub fn format(&self) -> (s: String)
        requires
            self.centi_lufs != i64::MIN,
        ensures
            s@ == spec_lufs_string(self.centi_lufs as int),
    {
        let mut s = format_fixed(self.centi_lufs, 2);
        s.append(" LUFS");
        s
    }

    /// Parses an absolute loudness, with or without its `" LUFS"`
    /// suffix. Plain and exponent-form decimal literals are accepted;
    /// `inf`, `nan` and values beyond the fixed-point working range are
    /// a `FormatError` (fixed point cannot hold them).
    pub fn parse(s: &str) -> (r: Result<LoudnessUnitFullScale, ScanError>)
        ensures
            match r {
                Ok(v) => spec_parse_unit(s@, 2) == Some(v.centi_lufs as int),
                Err(e) => spec_parse_unit(s@, 2) is None && e is FormatError,
            },
    {
        match parse_centi(s) {
            Ok(c) => Ok(LoudnessUnitFullScale::new(c)),
            Err(e) => Err(e),
        }
    }
}

/// The product of two linear amplitudes, rescaled to `LINEAR_SCALE` and
/// rounded to nearest, ties away from zero (magnitudes are nonnegative).
pub open spec fn spec_lin_mul(a: int, b: int) -> int {
    (a * b + 5_000_000) / 10_000_000
}

/// The quotient of two linear amplitudes, rescaled to `LINEAR_SCALE` and
/// rounded to nearest (ties upward).
pub open spec fn spec_lin_div(a: int, b: int) -> int {
    (2 * a * 10_000_000 + b) / (2 * b)
}

impl LinearLoudness {
    /// Nonnegative (amplitudes are magnitudes) and small enough that a
    /// product of two well-formed amplitudes stays in fixed-point range.
    pub open spec fn wf(&self) -> bool {
        0 <= self.units <= LINEAR_UNITS_BOUND
    }

    /// A linear amplitude of `units` ten-millionths.
    pub fn new(units: i64) -> (r: Self)
        ensures
            r.units == units,
    {
        LinearLoudness { units }
    }

    /// Whether this amplitude is strictly above `other` (peak comparison).
    pub fn exceeds(&self, other: &LinearLoudness) -> (r: bool)
        ensures
            r == (self.units > other.units),
    {
        self.units > other.units
    }

    /// The product of two amplitudes (a gain multiplier applied to a peak).
    pub fn times(&self, rhs: &LinearLoudness) -> (r: LinearLoudness)
        requires
            self.units >= 0,
            rhs.units >= 0,
            spec_lin_mul(self.units as int, rhs.units as int) <= i64::MAX,
        ensures
            r.units == spec_lin_mul(self.units as int, rhs.units as int),
    {
        let a = self.units as u128;
        let b = rhs.units as u128;
        let q: u128 = (a * b + 5_000_000) / 10_000_000;
        proof {
            assert(q == spec_lin_mul(self.units as int, rhs.units as int));
        }
        LinearLoudness { units: q as i64 }
    }

    /// The ratio of two amplitudes (how far a peak exceeds a ceiling).
    pub fn divided_by(&self, rhs: &LinearLoudness) -> (r: LinearLoudness)
        requires
            self.units >= 0,
            rhs.units > 0,
            spec_lin_div(self.units as int, rhs.units as int) <= i64::MAX,
        ensures
            r.units == spec_lin_div(self.units as int, rhs.units as int),
    {
        let a = self.units as u128;
        let b = rhs.units as u128;
        let q: u128 = (2 * a * 10_000_000 + b) / (2 * b);
        proof {
            assert(q == spec_lin_div(self.units as int, rhs.units as int));
        }
        LinearLoudness { units: q as i64 }
    }

    /// The textual form with seven decimals and no unit suffix.
    pub fn format(&self) -> (s: String)
        requires
            self.units != i64::MIN,
        ensures
            s@ == spec_linear_string(self.units as int),
    {
        format_fixed(self.units, 7)
    }
}

/// The fixed-point value a loudness string parses to: its numeric part
/// (everything before the first space; any unit suffix after it is
/// ignored), read as a decimal floating-point literal — plain or
/// exponent form — scaled by `10^width`. `None` when the numeric part is
/// not a valid literal in the fixed-point working range.
pub open spec fn spec_parse_unit(s: Seq<char>, width: nat) -> Option<int> {
    spec_parse_fixed(s.take(spec_first_index(s, ' ')), width)
}

/// Parses the numeric part of `s` (up to the first space) in hundredths.
/// A unit suffix after the space, recognized or not, is ignored: the
/// value is read as unit-less. Fails with a `FormatError` exactly when
/// the numeric part is not a valid decimal literal in range.
fn parse_centi(s: &str) -> (r: Result<i64, ScanError>)
    ensures
        match r {
            Ok(v) => spec_parse_unit(s@, 2) == Some(v as int),
            Err(e) => spec_parse_unit(s@, 2) is None && e is FormatError,
        },
{
    let cut = find_from(s, 0, ' ');
    proof {
        lemma_first_index_char(s@, ' ', cut as int);
    }
    let num = s.substring_char(0, cut);
    proof {
        assert(num@ =~= s@.take(spec_first_index(s@, ' ')));
    }
    parse_fixed(num, 2)
}

/// The `"<value> dB"` rendering of a hundredths value.
pub open spec fn spec_db_string(centi: int) -> Seq<char> {
    spec_fixed_chars(centi, 2) + " dB"@
}

/// The `"<value> LU"` rendering of a hundredths value.
pub open spec fn spec_lu_string(centi: int) -> Seq<char> {
    spec_fixed_chars(centi, 2) + " LU"@
}

/// The `"<value> LUFS"` rendering of a hundredths value.
pub open spec fn spec_lufs_string(centi: int) -> Seq<char> {
    spec_fixed_chars(centi, 2) + " LUFS"@
}

/// The seven-decimal rendering of a linear amplitude.
pub open spec fn spec_linear_string(units: int) -> Seq<char> {
    spec_fixed_chars(units, 7)
}

/// A unit string made of a fixed-point rendering and a suffix that
/// starts with a space parses back to the rendered value.
proof fn lemma_suffixed_roundtrip(c: int, width: nat, suffix: Seq<char>)
    requires
        1 <= width <= 7,
        -1_000_000_000_000 < c < 1_000_000_000_000,
        suffix.len() > 0,
        suffix[0] == ' ',
    ensures
        spec_parse_fixed(
            (spec_fixed_chars(c, width) + suffix).take(
                spec_first_index(spec_fixed_chars(c, width) + suffix, ' '),
            ),
            width,
        ) == Some(c),
{
    let body = spec_fixed_chars(c, width);
    let full = body + suffix;
    lemma_fixed_chars_no_space(c, width);
    assert forall|k: int| 0 <= k < body.len() implies full[k] != ' ' by {
        assert(full[k] == body[k]);
    }
    assert(full[body.len() as int] == suffix[0]);
    lemma_first_index_char(full, ' ', body.len() as int);
    assert(full.take(body.len() as int) =~= body);
    lemma_format_parse_roundtrip(c, width);
}

/// Formatting a decibel value and parsing the result back returns the
/// same value: `format` and `parse` are inverse over the working range.
pub proof fn lemma_db_roundtrip(c: int)
    requires
        -1_000_000_000_000 < c < 1_000_000_000_000,
    ensures
        spec_parse_unit(spec_db_string(c), 2) == Some(c),
{
    reveal_strlit(" dB");
    lemma_suffixed_roundtrip(c, 2, " dB"@);
}

/// Formatting an absolute loudness and parsing the result back returns
/// the same value.
pub proof fn lemma_lufs_roundtrip(c: int)
    requires
        -1_000_000_000_000 < c < 1_000_000_000_000,
    ensures
        spec_parse_unit(spec_lufs_string(c), 2) == Some(c),
{
    reveal_strlit(" LUFS");
    lemma_suffixed_roundtrip(c, 2, " LUFS"@);
}

} // verus!
