//! The tag-write state machine: which metadata operations each scan mode
//! emits, the command line the external metadata rewriter is driven with,
//! and the plan for atomically replacing the original file.
//!
//! Running the rewriter process and touching the filesystem are the
//! caller's work; this module decides, exactly and provably, what is run
//! and written. A metadata value of `""` instructs the rewriter to delete
//! the tag.

use vstd::prelude::*;

use crate::args::{Config, ScanMode};
use crate::decimal::{format_i64, spec_int_chars};
use crate::error::ScanError;
use crate::loudness_types::{
    spec_db_string, spec_linear_string, spec_lu_string, spec_lufs_string, spec_q78,
};
use crate::paths::{
    file_name, get_file_extension, join_path, parent_dir, spec_extension, spec_file_name,
    spec_join, spec_parent, str_eq,
};
use crate::replaygain_scanner::TrackGain;

verus! {

/// Whether the extension selects the Opus/Vorbis integer-gain tag dialect.
pub open spec fn spec_is_ogg(e: Seq<char>) -> bool {
    e == "ogg"@
}

/// The track-gain tag name of the general family, in the configured case.
pub open spec fn spec_track_gain_key(lower: bool) -> Seq<char> {
    if lower {
        "replaygain_track_gain"@
    } else {
        "REPLAYGAIN_TRACK_GAIN"@
    }
}

/// The track-peak tag name of the general family.
pub open spec fn spec_track_peak_key(lower: bool) -> Seq<char> {
    if lower {
        "replaygain_track_peak"@
    } else {
        "REPLAYGAIN_TRACK_PEAK"@
    }
}

/// The track-range tag name of the general family.
pub open spec fn spec_track_range_key(lower: bool) -> Seq<char> {
    if lower {
        "replaygain_track_range"@
    } else {
        "REPLAYGAIN_TRACK_RANGE"@
    }
}

/// The reference-loudness tag name of the general family.
pub open spec fn spec_reference_key(lower: bool) -> Seq<char> {
    if lower {
        "replaygain_reference_loudness"@
    } else {
        "REPLAYGAIN_REFERENCE_LOUDNESS"@
    }
}

/// The gain value as written: dB normally, LU in the LUFS-flavored mode.
pub open spec fn spec_gain_value(t: TrackGain, mode: ScanMode) -> Seq<char> {
    if mode is WriteExtraTagsLufs {
        spec_lu_string(t.gain.centi_db as int)
    } else {
        spec_db_string(t.gain.centi_db as int)
    }
}

/// The range value as written: dB normally, LU in the LUFS-flavored mode.
pub open spec fn spec_range_value(t: TrackGain, mode: ScanMode) -> Seq<char> {
    if mode is WriteExtraTagsLufs {
        spec_lu_string(t.range.centi_db as int)
    } else {
        spec_db_string(t.range.centi_db as int)
    }
}

/// The `(name, value)` tags one writing mode emits for one track.
///
/// The Opus family gets exactly one tag, the integer Q7.8 track gain, and
/// never any peak, range or reference tag. The general family gets gain
/// and peak, plus range and reference loudness in the extra modes; the
/// reference loudness is always in LUFS.
pub open spec fn spec_gain_tag_pairs(t: TrackGain, mode: ScanMode, lower: bool, opus: bool) -> Seq<
    (Seq<char>, Seq<char>),
> {
    if opus {
        seq![("R128_TRACK_GAIN"@, spec_int_chars(spec_q78(t.gain.centi_db as int)))]
    } else {
        let base = seq![
            (spec_track_gain_key(lower), spec_gain_value(t, mode)),
            (spec_track_peak_key(lower), spec_linear_string(t.true_peak.units as int)),
        ];
        if mode is WriteExtraTags || mode is WriteExtraTagsLufs {
            base + seq![
                (spec_track_range_key(lower), spec_range_value(t, mode)),
                (
                    spec_reference_key(lower),
                    spec_lufs_string(t.reference_loudness.centi_lufs as int),
                ),
            ]
        } else {
            base
        }
    }
}

/// The `(name, empty)` clear operations `DeleteTags` emits: both casings
/// of the six track/album gain, peak and range tags for the general
/// family; the two R128 integer gain tags for the Opus family. Album tags
/// are cleared although this library never writes them.
pub open spec fn spec_delete_tag_pairs(opus: bool) -> Seq<(Seq<char>, Seq<char>)> {
    if opus {
        seq![
            ("R128_TRACK_GAIN"@, Seq::<char>::empty()),
            ("R128_ALBUM_GAIN"@, Seq::<char>::empty()),
        ]
    } else {
        seq![
            ("REPLAYGAIN_TRACK_GAIN"@, Seq::<char>::empty()),
            ("replaygain_track_gain"@, Seq::<char>::empty()),
            ("REPLAYGAIN_TRACK_PEAK"@, Seq::<char>::empty()),
            ("replaygain_track_peak"@, Seq::<char>::empty()),
            ("REPLAYGAIN_TRACK_RANGE"@, Seq::<char>::empty()),
            ("replaygain_track_range"@, Seq::<char>::empty()),
            ("REPLAYGAIN_ALBUM_GAIN"@, Seq::<char>::empty()),
            ("replaygain_album_gain"@, Seq::<char>::empty()),
            ("REPLAYGAIN_ALBUM_PEAK"@, Seq::<char>::empty()),
            ("replaygain_album_peak"@, Seq::<char>::empty()),
            ("REPLAYGAIN_ALBUM_RANGE"@, Seq::<char>::empty()),
            ("replaygain_album_range"@, Seq::<char>::empty()),
        ]
    }
}

/// The rewriter arguments for a list of tag operations: each `(name,
/// value)` pair becomes `-metadata` followed by `name=value`.
pub open spec fn spec_metadata_args(pairs: Seq<(Seq<char>, Seq<char>)>) -> Seq<Seq<char>>
    decreases pairs.len(),
{
    if pairs.len() == 0 {
        Seq::empty()
    } else {
        seq!["-metadata"@, pairs.first().0 + seq!['='] + pairs.first().1]
            + spec_metadata_args(pairs.drop_first())
    }
}

/// `spec_metadata_args` distributes over concatenation of tag lists.
pub proof fn lemma_metadata_args_append(
    a: Seq<(Seq<char>, Seq<char>)>,
    b: Seq<(Seq<char>, Seq<char>)>,
)
    ensures
        spec_metadata_args(a + b) == spec_metadata_args(a) + spec_metadata_args(b),
    decreases a.len(),
{
    if a.len() == 0 {
        assert(a + b =~= b);
        assert(spec_metadata_args(a) + spec_metadata_args(b) =~= spec_metadata_args(b));
    } else {
        assert((a + b).len() > 0);
        assert((a + b).first() == a.first());
        assert((a + b).drop_first() =~= a.drop_first() + b);
        lemma_metadata_args_append(a.drop_first(), b);
        assert(seq!["-metadata"@, a.first().0 + seq!['='] + a.first().1] + (spec_metadata_args(
            a.drop_first(),
        ) + spec_metadata_args(b)) =~= spec_metadata_args(a) + spec_metadata_args(b));
    }
}

/// Every tag list's argument list is twice as long as the tag list.
pub proof fn lemma_metadata_args_len(pairs: Seq<(Seq<char>, Seq<char>)>)
    ensures
        spec_metadata_args(pairs).len() == 2 * pairs.len(),
    decreases pairs.len(),
{
    if pairs.len() > 0 {
        lemma_metadata_args_len(pairs.drop_first());
    }
}

/// Appends `-metadata` and `name=value` to the argument list being built.
fn push_metadata(out: &mut Vec<String>, key: &str, value: &str)
    ensures
        final(out).deep_view() == old(out).deep_view() + spec_metadata_args(
            seq![(key@, value@)],
        ),
{
    out.push(String::from_str("-metadata"));
    let mut kv = key.to_owned();
    let eq_sign = "=";
    proof {
        reveal_strlit("=");
        assert(eq_sign@ =~= seq!['=']);
    }
    kv.append(eq_sign);
    kv.append(value);
    proof {
        reveal_with_fuel(spec_metadata_args, 3);
        let pairs = seq![(key@, value@)];
        assert(pairs.drop_first() =~= Seq::<(Seq<char>, Seq<char>)>::empty());
        assert(spec_metadata_args(pairs.drop_first()) =~= Seq::<Seq<char>>::empty());
        assert(spec_metadata_args(pairs) =~= seq!["-metadata"@, key@ + seq!['='] + value@]);
    }
    out.push(kv);
    proof {
        assert(out.deep_view() =~= old(out).deep_view() + seq![
            "-metadata"@,
            key@ + seq!['='] + value@,
        ]);
    }
}

/// Builds the rewriter's tag-set arguments for one track in one writing
/// mode (`WriteTags`, `WriteExtraTags` or `WriteExtraTagsLufs`), in the
/// dialect the extension selects.
pub fn format_tags(cfg: &Config, tags: &TrackGain, extension: &str) -> (r: Vec<String>)
    requires
        tags.wf(),
        cfg.scan_mode.spec_writes_tags(),
    ensures
        r.deep_view() == spec_metadata_args(
            spec_gain_tag_pairs(
                *tags,
                cfg.scan_mode,
                cfg.lowercase_tags,
                spec_is_ogg(extension@),
            ),
        ),
{
    let ghost all_pairs = spec_gain_tag_pairs(
        *tags,
        cfg.scan_mode,
        cfg.lowercase_tags,
        spec_is_ogg(extension@),
    );
    let mut out: Vec<String> = Vec::new();
    proof {
        assert(out.deep_view() =~= Seq::<Seq<char>>::empty());
    }
    if str_eq(extension, "ogg") {
        let q = tags.gain.to_q78num();
        let value = format_i64(q as i64);
        push_metadata(&mut out, "R128_TRACK_GAIN", value.as_str());
        proof {
            assert(all_pairs =~= seq![("R128_TRACK_GAIN"@, spec_int_chars(
                spec_q78(tags.gain.centi_db as int),
            ))]);
            assert(out.deep_view() =~= spec_metadata_args(all_pairs));
        }
    } else {
        let gain_value = if matches!(cfg.scan_mode, ScanMode::WriteExtraTagsLufs) {
            tags.gain.as_LU().format()
        } else {
            tags.gain.format()
        };
        let gain_key = if cfg.lowercase_tags {
            "replaygain_track_gain"
        } else {
            "REPLAYGAIN_TRACK_GAIN"
        };
        push_metadata(&mut out, gain_key, gain_value.as_str());
        let peak_value = tags.true_peak.format();
        let peak_key = if cfg.lowercase_tags {
            "replaygain_track_peak"
        } else {
            "REPLAYGAIN_TRACK_PEAK"
        };
        push_metadata(&mut out, peak_key, peak_value.as_str());
        let ghost base = seq![
            (spec_track_gain_key(cfg.lowercase_tags), spec_gain_value(*tags, cfg.scan_mode)),
            (
                spec_track_peak_key(cfg.lowercase_tags),
                spec_linear_string(tags.true_peak.units as int),
            ),
        ];
        proof {
            lemma_metadata_args_append(
                seq![base[0]],
                seq![base[1]],
            );
            assert(seq![base[0]] + seq![base[1]] =~= base);
            assert(out.deep_view() =~= spec_metadata_args(base));
        }
        if matches!(cfg.scan_mode, ScanMode::WriteExtraTags)
            || matches!(cfg.scan_mode, ScanMode::WriteExtraTagsLufs) {
            let range_value = if matches!(cfg.scan_mode, ScanMode::WriteExtraTagsLufs) {
                tags.range.as_LU().format()
            } else {
                tags.range.format()
            };
            let range_key = if cfg.lowercase_tags {
                "replaygain_track_range"
            } else {
                "REPLAYGAIN_TRACK_RANGE"
            };
            push_metadata(&mut out, range_key, range_value.as_str());
            let reference_value = tags.reference_loudness.format();
            let reference_key = if cfg.lowercase_tags {
                "replaygain_reference_loudness"
            } else {
                "REPLAYGAIN_REFERENCE_LOUDNESS"
            };
            push_metadata(&mut out, reference_key, reference_value.as_str());
            let ghost extra = seq![
                (
                    spec_track_range_key(cfg.lowercase_tags),
                    spec_range_value(*tags, cfg.scan_mode),
                ),
                (
                    spec_reference_key(cfg.lowercase_tags),
                    spec_lufs_string(tags.reference_loudness.centi_lufs as int),
                ),
            ];
            proof {
                lemma_metadata_args_append(base, seq![extra[0]]);
                lemma_metadata_args_append(base + seq![extra[0]], seq![extra[1]]);
                assert(base + seq![extra[0]] + seq![extra[1]] =~= base + extra);
                assert(all_pairs =~= base + extra);
                assert(out.deep_view() =~= spec_metadata_args(all_pairs));
            }
        } else {
            proof {
                assert(all_pairs =~= base);
            }
        }
    }
    out
}

/// Appends one clear operation (`-metadata`, `name=`) for position `k`
/// of the planned pair list, whose value there is empty.
fn push_clear(
    out: &mut Vec<String>,
    key: &str,
    Ghost(pairs): Ghost<Seq<(Seq<char>, Seq<char>)>>,
    Ghost(k): Ghost<int>,
)
    requires
        0 <= k < pairs.len(),
        pairs[k].0 == key@,
        pairs[k].1 == Seq::<char>::empty(),
        old(out).deep_view() == spec_metadata_args(pairs.take(k)),
    ensures
        final(out).deep_view() == spec_metadata_args(pairs.take(k + 1)),
{
    push_metadata(out, key, "");
    proof {
        reveal_strlit("");
        assert(""@ =~= Seq::<char>::empty());
        assert(seq![(key@, ""@)] =~~= seq![pairs[k]]);
        assert(pairs.take(k + 1) =~= pairs.take(k) + seq![pairs[k]]);
        lemma_metadata_args_append(pairs.take(k), seq![pairs[k]]);
    }
}

/// Builds the rewriter's clear operations for `DeleteTags` in the dialect
/// the extension selects: every listed tag is set to the empty value,
/// which tells the rewriter to delete it.
pub fn format_delete_tags(extension: &str) -> (r: Vec<String>)
    ensures
        r.deep_view() == spec_metadata_args(spec_delete_tag_pairs(spec_is_ogg(extension@))),
{
    let ghost all_pairs = spec_delete_tag_pairs(spec_is_ogg(extension@));
    let mut out: Vec<String> = Vec::new();
    proof {
        assert(out.deep_view() =~= Seq::<Seq<char>>::empty());
        assert(all_pairs.take(0) =~= Seq::<(Seq<char>, Seq<char>)>::empty());
    }
    if str_eq(extension, "ogg") {
        push_clear(&mut out, "R128_TRACK_GAIN", Ghost(all_pairs), Ghost(0));
        push_clear(&mut out, "R128_ALBUM_GAIN", Ghost(all_pairs), Ghost(1));
        proof {
            assert(all_pairs.take(2) =~= all_pairs);
        }
    } else {
        push_clear(&mut out, "REPLAYGAIN_TRACK_GAIN", Ghost(all_pairs), Ghost(0));
        push_clear(&mut out, "replaygain_track_gain", Ghost(all_pairs), Ghost(1));
        push_clear(&mut out, "REPLAYGAIN_TRACK_PEAK", Ghost(all_pairs), Ghost(2));
        push_clear(&mut out, "replaygain_track_peak", Ghost(all_pairs), Ghost(3));
        push_clear(&mut out, "REPLAYGAIN_TRACK_RANGE", Ghost(all_pairs), Ghost(4));
        push_clear(&mut out, "replaygain_track_range", Ghost(all_pairs), Ghost(5));
        push_clear(&mut out, "REPLAYGAIN_ALBUM_GAIN", Ghost(all_pairs), Ghost(6));
        push_clear(&mut out, "replaygain_album_gain", Ghost(all_pairs), Ghost(7));
        push_clear(&mut out, "REPLAYGAIN_ALBUM_PEAK", Ghost(all_pairs), Ghost(8));
        push_clear(&mut out, "replaygain_album_peak", Ghost(all_pairs), Ghost(9));
        push_clear(&mut out, "REPLAYGAIN_ALBUM_RANGE", Ghost(all_pairs), Ghost(10));
        push_clear(&mut out, "replaygain_album_range", Ghost(all_pairs), Ghost(11));
        proof {
            assert(all_pairs.take(12) =~= all_pairs);
        }
    }
    out
}

/// The full command line that drives the external metadata rewriter: copy
/// every stream of the input without re-encoding, apply the tag
/// operations, and write to `output`.
pub open spec fn spec_rewriter_command(
    filepath: Seq<char>,
    tag_args: Seq<Seq<char>>,
    output: Seq<char>,
) -> Seq<Seq<char>> {
    seq![
        "ffmpeg"@,
        "-hide_banner"@,
        "-i"@,
        filepath,
        "-map"@,
        "0"@,
        "-y"@,
        "-codec"@,
        "copy"@,
    ] + tag_args + seq![output]
}

/// Builds the rewriter command line for one input, one tag-argument list
/// and one output path.
pub fn rewriter_command(filepath: &str, tag_args: &Vec<String>, output: &str) -> (r: Vec<String>)
    ensures
        r.deep_view() == spec_rewriter_command(filepath@, tag_args.deep_view(), output@),
{
    let mut out: Vec<String> = Vec::new();
    out.push(String::from_str("ffmpeg"));
    out.push(String::from_str("-hide_banner"));
    out.push(String::from_str("-i"));
    out.push(filepath.to_owned());
    out.push(String::from_str("-map"));
    out.push(String::from_str("0"));
    out.push(String::from_str("-y"));
    out.push(String::from_str("-codec"));
    out.push(String::from_str("copy"));
    let ghost head = seq![
        "ffmpeg"@,
        "-hide_banner"@,
        "-i"@,
        filepath@,
        "-map"@,
        "0"@,
        "-y"@,
        "-codec"@,
        "copy"@,
    ];
    proof {
        assert(out.deep_view() =~= head);
    }
    let n = tag_args.len();
    let mut i: usize = 0;
    while i < n
        invariant
            i <= n,
            n == tag_args@.len(),
            tag_args.deep_view().len() == n,
            out.deep_view() =~= head + tag_args.deep_view().take(i as int),
        decreases n - i,
    {
        let a = tag_args[i].clone();
        proof {
            assert(tag_args.deep_view()[i as int] == tag_args@[i as int]@);
        }
        out.push(a);
        proof {
            assert(head + tag_args.deep_view().take(i + 1) =~= (head + tag_args.deep_view().take(
                i as int,
            )).push(tag_args.deep_view()[i as int]));
            assert(out.deep_view() =~= head + tag_args.deep_view().take(i + 1));
        }
        i = i + 1;
    }
    proof {
        assert(tag_args.deep_view().take(n as int) =~= tag_args.deep_view());
    }
    out.push(output.to_owned());
    proof {
        assert(out.deep_view() =~= spec_rewriter_command(filepath@, tag_args.deep_view(), output@));
    }
    out
}

/// The rewriter instruction that wipes all metadata, for the optional
/// strip pass that runs before the gain tags are written.
pub open spec fn spec_wipe_args() -> Seq<Seq<char>> {
    seq!["-map_metadata"@, "-1"@]
}

/// Builds the metadata-wipe arguments for the strip pass.
pub fn wipe_args() -> (r: Vec<String>)
    ensures
        r.deep_view() == spec_wipe_args(),
{
    let mut out: Vec<String> = Vec::new();
    out.push(String::from_str("-map_metadata"));
    out.push(String::from_str("-1"));
    proof {
        assert(out.deep_view() =~= spec_wipe_args());
    }
    out
}

/// How the rewriter's fresh output atomically replaces the original:
/// first copy it next to the original, then rename that copy over the
/// original path. The rename is the only step that touches the original,
/// so a failure before it leaves the original byte-identical.
#[derive(Debug)]
pub struct SwapPlan {
    /// The rewriter's temporary output, read and left in place.
    pub copy_from: String,
    /// Where it is copied first: the original's directory, under the
    /// temporary file's name.
    pub copy_to: String,
    /// The original path the copy is then renamed onto.
    pub rename_to: String,
}

/// Plans the atomic replacement of `old` by the rewriter output `new`.
///
/// Fails with an `IoError` when `old` has no file name component (an
/// empty path, the root, or a path ending in a separator names no
/// original file to replace) or when `new` has none. Names are taken
/// literally: the path model gives `..` no special meaning.
pub fn swap_files(old: &str, new: &str) -> (r: Result<SwapPlan, ScanError>)
    ensures
        ({
            if spec_file_name(old@).len() == 0 || spec_file_name(new@).len() == 0 {
                r matches Err(e) && e is IoError
            } else {
                r matches Ok(p) && p.copy_from@ == new@ && p.copy_to@ == spec_join(
                    spec_parent(old@),
                    spec_file_name(new@),
                ) && p.rename_to@ == old@
            }
        }),
{
    let old_name = file_name(old);
    if old_name.unicode_len() == 0 {
        return Err(ScanError::IoError(String::from_str("Parent directory does not exists")));
    }
    let name = file_name(new);
    if name.unicode_len() == 0 {
        return Err(ScanError::IoError(String::from_str("File does not have a name")));
    }
    let topdir = parent_dir(old);
    let copy_to = join_path(topdir.as_str(), name.as_str());
    Ok(SwapPlan { copy_from: new.to_owned(), copy_to, rename_to: old.to_owned() })
}

/// One planned run of the external rewriter: the tag arguments of the
/// pass. The caller wraps them in the full command via
/// `rewriter_command`, runs the process, and commits the output with the
/// plan from `swap_files`.
#[derive(Debug)]
pub enum SaveTagsPlan {
    /// Leave the file untouched and report success.
    NoOp,
    /// Run the rewriter once per pass, in order, committing each result.
    Rewrite { passes: Vec<Vec<String>> },
}

/// Decides what the tag-write state machine does for one track: nothing
/// for `DontWriteTags`; one clear pass for `DeleteTags`; for the writing
/// modes, an optional metadata-strip pass (which must come first, since
/// it erases any tag just written) followed by the gain-tag pass.
///
/// Fails with an `IoError` when the file has no extension, since the tag
/// dialect cannot be chosen.
pub fn save_tags(cfg: &Config, tags: &TrackGain) -> (r: Result<SaveTagsPlan, ScanError>)
    requires
        tags.wf(),
    ensures
        ({
            let ext = spec_extension(tags.filepath@);
            match cfg.scan_mode {
                ScanMode::DontWriteTags => r matches Ok(p) && p is NoOp,
                ScanMode::DeleteTags => {
                    if ext is None {
                        r matches Err(e) && e is IoError
                    } else {
                        r matches Ok(p) && p matches SaveTagsPlan::Rewrite { passes }
                            && passes.deep_view() == seq![
                            spec_metadata_args(spec_delete_tag_pairs(spec_is_ogg(ext.unwrap()))),
                        ]
                    }
                },
                _ => {
                    if ext is None {
                        r matches Err(e) && e is IoError
                    } else {
                        let gain_pass = spec_metadata_args(
                            spec_gain_tag_pairs(
                                *tags,
                                cfg.scan_mode,
                                cfg.lowercase_tags,
                                spec_is_ogg(ext.unwrap()),
                            ),
                        );
                        r matches Ok(p) && p matches SaveTagsPlan::Rewrite { passes }
                            && passes.deep_view() == (
                        if cfg.strip {
                            seq![spec_wipe_args(), gain_pass]
                        } else {
                            seq![gain_pass]
                        })
                    }
                },
            }
        }),
{
    if matches!(cfg.scan_mode, ScanMode::DontWriteTags) {
        return Ok(SaveTagsPlan::NoOp);
    }
    let extension = match get_file_extension(tags.filepath.as_str()) {
        Some(e) => e,
        None => {
            let mut m = String::from_str("no file extension: ");
            m.append(tags.filepath.as_str());
            return Err(ScanError::IoError(m));
        },
    };
    if matches!(cfg.scan_mode, ScanMode::DeleteTags) {
        let pass = format_delete_tags(extension.as_str());
        let ghost pass_view = pass.deep_view();
        let mut passes: Vec<Vec<String>> = Vec::new();
        passes.push(pass);
        proof {
            assert(passes.deep_view() =~= seq![pass_view]);
        }
        return Ok(SaveTagsPlan::Rewrite { passes });
    }
    let gain_pass = format_tags(cfg, tags, extension.as_str());
    let ghost gain_view = gain_pass.deep_view();
    let mut passes: Vec<Vec<String>> = Vec::new();
    if cfg.strip {
        let wipe = wipe_args();
        let ghost wipe_view = wipe.deep_view();
        passes.push(wipe);
        passes.push(gain_pass);
        proof {
            assert(passes.deep_view() =~= seq![wipe_view, gain_view]);
        }
    } else {
        passes.push(gain_pass);
        proof {
            assert(passes.deep_view() =~= seq![gain_view]);
        }
    }
    Ok(SaveTagsPlan::Rewrite { passes })
}

/// For the Opus family, every writing mode emits exactly one tag, and
/// its key is the R128 integer track gain: no peak, range or reference
/// tag is ever written for this family.
pub proof fn lemma_opus_single_tag(t: TrackGain, mode: ScanMode, lower: bool)
    requires
        mode.spec_writes_tags(),
    ensures
        spec_gain_tag_pairs(t, mode, lower, true).len() == 1,
        spec_gain_tag_pairs(t, mode, lower, true)[0].0 == "R128_TRACK_GAIN"@,
{
}

/// For the general family, `WriteTags` emits two tags (gain and peak)
/// and the two extra modes emit four (adding range and reference
/// loudness).
pub proof fn lemma_general_tag_count(t: TrackGain, mode: ScanMode, lower: bool)
    requires
        mode.spec_writes_tags(),
    ensures
        mode is WriteTags ==> spec_gain_tag_pairs(t, mode, lower, false).len() == 2,
        !(mode is WriteTags) ==> spec_gain_tag_pairs(t, mode, lower, false).len() == 4,
{
}

/// `DeleteTags` always emits exactly twelve clear operations for the
/// general family (six tags in both casings, 24 rewriter arguments) and
/// exactly two for the Opus family.
pub proof fn lemma_delete_tags_count()
    ensures
        spec_delete_tag_pairs(false).len() == 12,
        spec_metadata_args(spec_delete_tag_pairs(false)).len() == 24,
        spec_delete_tag_pairs(true).len() == 2,
        spec_metadata_args(spec_delete_tag_pairs(true)).len() == 4,
{
    lemma_metadata_args_len(spec_delete_tag_pairs(false));
    lemma_metadata_args_len(spec_delete_tag_pairs(true));
}

/// The swap plan touches the original path only in its final, atomic
/// rename: as long as the rewriter output's file name differs from the
/// original's (temporary names carry a distinct prefix), the
/// intermediate copy target is a different path, so a failure before the
/// rename leaves the original file untouched.
pub proof fn lemma_swap_preserves_original(old_path: Seq<char>, new_path: Seq<char>)
    requires
        old_path.len() > 0,
        spec_file_name(new_path).len() > 0,
        spec_file_name(new_path) != spec_file_name(old_path),
    ensures
        spec_join(spec_parent(old_path), spec_file_name(new_path)) != old_path,
{
    crate::paths::lemma_file_name_no_slash(new_path);
    crate::paths::lemma_file_name_of_join(spec_parent(old_path), spec_file_name(new_path));
}

} // verus!
