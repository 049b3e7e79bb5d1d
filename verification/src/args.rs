//! Run-wide configuration: the tag-write mode with its one-letter CLI
//! encoding, the explicit configuration record every component reads, and
//! the filter that keeps only files whose extension the scanner supports.

use vstd::prelude::*;

use crate::error::ScanError;
use crate::loudness_types::{Decibel, LoudnessUnitFullScale};
use crate::paths::{get_file_extension, spec_extension, str_eq};

verus! {

/// What the tag-write state machine does with each scanned file.
#[derive(Clone, Copy, Debug, PartialEq, Eq, Structural)]
pub enum ScanMode {
    /// Scan only; leave every file untouched.
    DontWriteTags,
    /// Clear every ReplayGain tag the file may carry.
    DeleteTags,
    /// Write the track gain and track peak tags.
    WriteTags,
    /// Also write the range and reference-loudness tags.
    WriteExtraTags,
    /// As `WriteExtraTags`, with gain and range expressed in LU.
    WriteExtraTagsLufs,
}

impl ScanMode {
    /// The mode's one-letter CLI encoding.
    pub open spec fn spec_letter(&self) -> char {
        match self {
            ScanMode::DontWriteTags => 's',
            ScanMode::DeleteTags => 'd',
            ScanMode::WriteTags => 'i',
            ScanMode::WriteExtraTags => 'e',
            ScanMode::WriteExtraTagsLufs => 'l',
        }
    }

    /// The mode encoded by one letter, if any.
    pub open spec fn spec_of_letter(c: char) -> Option<ScanMode> {
        match c {
            's' => Some(ScanMode::DontWriteTags),
            'd' => Some(ScanMode::DeleteTags),
            'i' => Some(ScanMode::WriteTags),
            'e' => Some(ScanMode::WriteExtraTags),
            'l' => Some(ScanMode::WriteExtraTagsLufs),
            _ => None,
        }
    }

    /// Whether this mode writes gain tags (as opposed to doing nothing or
    /// deleting).
    pub open spec fn spec_writes_tags(&self) -> bool {
        self is WriteTags || self is WriteExtraTags || self is WriteExtraTagsLufs
    }

    /// The mode's one-letter CLI encoding.
    pub fn letter(&self) -> (c: char)
        ensures
            c == self.spec_letter(),
    {
        match self {
            ScanMode::DontWriteTags => 's',
            ScanMode::DeleteTags => 'd',
            ScanMode::WriteTags => 'i',
            ScanMode::WriteExtraTags => 'e',
            ScanMode::WriteExtraTagsLufs => 'l',
        }
    }

    /// Decodes a one-letter mode string; any other input is a
    /// `FormatError`.
    pub fn from_letter(s: &str) -> (r: Result<ScanMode, ScanError>)
        ensures
            ({
                if s@.len() == 1 && Self::spec_of_letter(s@[0]) is Some {
                    r == Ok::<ScanMode, ScanError>(Self::spec_of_letter(s@[0]).unwrap())
                } else {
                    r matches Err(e) && e is FormatError
                }
            }),
    {
        if s.unicode_len() == 1 {
            let c = s.get_char(0);
            match c {
                's' => return Ok(ScanMode::DontWriteTags),
                'd' => return Ok(ScanMode::DeleteTags),
                'i' => return Ok(ScanMode::WriteTags),
                'e' => return Ok(ScanMode::WriteExtraTags),
                'l' => return Ok(ScanMode::WriteExtraTagsLufs),
                _ => {},
            }
        }
        let mut m = String::from_str("Cannot parse ");
        m.append(s);
        m.append(" into a tag mode.");
        Err(ScanError::FormatError(m))
    }
}

/// Decoding a mode's own letter gives the mode back: the letter mapping
/// is a bijection between the five modes and their five letters.
pub proof fn lemma_mode_letter_roundtrip(m: ScanMode)
    ensures
        ScanMode::spec_of_letter(m.spec_letter()) == Some(m),
{
}

/// The process-wide configuration, fixed for a whole run and passed
/// explicitly into the gain calculator and the tag-write state machine.
#[derive(Clone, Copy, Debug)]
pub struct Config {
    /// Apply clip avoidance to the computed gain.
    pub no_clip: bool,
    /// The maximum-true-peak ceiling clip avoidance holds the peak under.
    pub max_true_peak: LoudnessUnitFullScale,
    /// A constant offset added to every computed gain.
    pub pregain: Decibel,
    /// Write the general-family tag names in lowercase.
    pub lowercase_tags: bool,
    /// Strip all non-ReplayGain metadata before writing gain tags.
    pub strip: bool,
    /// What the tag-write state machine does per file.
    pub scan_mode: ScanMode,
    /// Do not report skipped files.
    pub quiet: bool,
}

impl Config {
    /// The configured scalars stay inside the fixed-point working range.
    pub open spec fn wf(&self) -> bool {
        &&& self.pregain.wf()
        &&& self.max_true_peak.wf()
    }
}

impl Default for Config {
    /// The defaults of the reference tool: no clip avoidance, a ceiling of
    /// -1.00 LUFS, no pregain, uppercase tags, no stripping, scan only.
    fn default() -> (c: Self)
        ensures
            c.no_clip == false,
            c.max_true_peak.centi_lufs == -100,
            c.pregain.centi_db == 0,
            c.lowercase_tags == false,
            c.strip == false,
            c.scan_mode == ScanMode::DontWriteTags,
            c.quiet == false,
            c.wf(),
    {
        Config {
            no_clip: false,
            max_true_peak: LoudnessUnitFullScale::new(-100),
            pregain: Decibel::new(0),
            lowercase_tags: false,
            strip: false,
            scan_mode: ScanMode::DontWriteTags,
            quiet: false,
        }
    }
}

/// The file extensions the scanner accepts.
pub open spec fn spec_supported_extension(e: Seq<char>) -> bool {
    ||| e == "flac"@
    ||| e == "mp3"@
    ||| e == "mp4"@
    ||| e == "m4a"@
    ||| e == "m4b"@
    ||| e == "m4p"@
    ||| e == "m4r"@
    ||| e == "ogg"@
    ||| e == "vorbis"@
    ||| e == "wv"@
}

/// Whether the path carries an extension the scanner accepts.
pub open spec fn spec_has_supported_extension(p: Seq<char>) -> bool {
    match spec_extension(p) {
        Some(e) => spec_supported_extension(e),
        None => false,
    }
}

/// Whether the path's extension is one the scanner accepts.
pub fn has_supported_extension(path: &str) -> (r: bool)
    ensures
        r == spec_has_supported_extension(path@),
{
    match get_file_extension(path) {
        None => false,
        Some(e) => {
            let e = e.as_str();
            str_eq(e, "flac") || str_eq(e, "mp3") || str_eq(e, "mp4") || str_eq(e, "m4a")
                || str_eq(e, "m4b") || str_eq(e, "m4p") || str_eq(e, "m4r") || str_eq(e, "ogg")
                || str_eq(e, "vorbis") || str_eq(e, "wv")
        },
    }
}

/// Keeps the paths whose extension the scanner supports, in their given
/// order; everything else is dropped (and reported by the caller).
pub fn check_for_invalid_extension(paths: Vec<String>) -> (r: Vec<String>)
    ensures
        r.deep_view() == paths.deep_view().filter(
            |v: Seq<char>| spec_has_supported_extension(v),
        ),
{
    let ghost pred = |v: Seq<char>| spec_has_supported_extension(v);
    let mut kept: Vec<String> = Vec::new();
    proof {
        assert(paths.deep_view().take(0).filter(pred) =~= Seq::<Seq<char>>::empty());
        assert(kept.deep_view() =~= Seq::<Seq<char>>::empty());
    }
    let n = paths.len();
    let mut i: usize = 0;
    while i < n
        invariant
            i <= n,
            n == paths@.len(),
            paths.deep_view().len() == n,
            kept.deep_view() == paths.deep_view().take(i as int).filter(pred),
            pred == (|v: Seq<char>| spec_has_supported_extension(v)),
        decreases n - i,
    {
        let ghost kept_before = kept.deep_view();
        let p = paths[i].clone();
        proof {
            assert(paths.deep_view()[i as int] == paths@[i as int]@);
            assert(p@ == paths@[i as int]@);
        }
        if has_supported_extension(p.as_str()) {
            kept.push(p);
            proof {
                assert(kept.deep_view() =~= kept_before.push(p@));
            }
        }
        proof {
            reveal(Seq::filter);
            assert(paths.deep_view().take(i + 1).drop_last() =~= paths.deep_view().take(
                i as int,
            ));
            assert(paths.deep_view().take(i + 1).last() == paths.deep_view()[i as int]);
            assert(kept.deep_view() =~= paths.deep_view().take(i + 1).filter(pred));
        }
        i = i + 1;
    }
    proof {
        assert(paths.deep_view().take(n as int) =~= paths.deep_view());
    }
    kept
}

} // verus!
