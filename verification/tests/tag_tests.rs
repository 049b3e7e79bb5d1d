//! The tag-write state machine: tag sets per mode and family, delete
//! sets, the rewriter command line, the save plan and the swap plan.

use loudgain_rust::args::{Config, ScanMode};
use loudgain_rust::gain::calculate_gain;
use loudgain_rust::error::ScanError;
use loudgain_rust::loudness_types::{Decibel, LinearLoudness, LoudnessUnitFullScale};
use loudgain_rust::replaygain_scanner::{get_track_gain, ScanResult, TrackGain};
use loudgain_rust::tags::{
    format_delete_tags, format_tags, rewriter_command, save_tags, swap_files, wipe_args,
    SaveTagsPlan,
};

fn track(path: &str) -> TrackGain {
    // integrated -20 LUFS against the -18 reference: gain 2.00 dB.
    let scan = ScanResult::new(
        LoudnessUnitFullScale::new(-2000),
        Decibel::new(750),
        LinearLoudness::new(9_000_000),
    );
    get_track_gain(path.to_string(), &scan, Decibel::new(200))
}

fn cfg_with(mode: ScanMode) -> Config {
    let mut cfg = Config::default();
    cfg.scan_mode = mode;
    cfg
}

#[test]
fn end_to_end_flac_scan_writes_gain_and_peak() {
    // File track.flac measured at -20.0 LUFS with a 0.9 true peak, mode
    // WriteTags, default pregain, clip avoidance off: the gain is 2.00 dB
    // and exactly the gain and peak tags are written.
    let cfg = cfg_with(ScanMode::WriteTags);
    let scan = ScanResult::new(
        LoudnessUnitFullScale::new(-2000),
        Decibel::new(750),
        LinearLoudness::new(9_000_000),
    );
    let gain = calculate_gain(&cfg, scan.integrated_loudness);
    assert_eq!(gain.centi_db, 200);
    let track = get_track_gain("track.flac".to_string(), &scan, gain);
    match save_tags(&cfg, &track).unwrap() {
        SaveTagsPlan::Rewrite { passes } => {
            assert_eq!(
                passes,
                vec![vec![
                    "-metadata".to_string(),
                    "REPLAYGAIN_TRACK_GAIN=2.00 dB".to_string(),
                    "-metadata".to_string(),
                    "REPLAYGAIN_TRACK_PEAK=0.9000000".to_string(),
                ]]
            );
        }
        _ => panic!("expected Rewrite"),
    }
}

#[test]
fn track_gain_record_carries_the_measurement_and_reference() {
    let t = track("track.flac");
    assert_eq!(t.filepath, "track.flac");
    assert_eq!(t.gain.centi_db, 200);
    assert_eq!(t.true_peak.units, 9_000_000);
    assert_eq!(t.range.centi_db, 750);
    assert_eq!(t.reference_loudness.centi_lufs, -1800);
}

#[test]
fn write_tags_emits_gain_and_peak_for_the_general_family() {
    let args = format_tags(&cfg_with(ScanMode::WriteTags), &track("track.flac"), "flac");
    assert_eq!(
        args,
        vec![
            "-metadata".to_string(),
            "REPLAYGAIN_TRACK_GAIN=2.00 dB".to_string(),
            "-metadata".to_string(),
            "REPLAYGAIN_TRACK_PEAK=0.9000000".to_string(),
        ]
    );
}

#[test]
fn extra_tags_add_range_and_reference_loudness() {
    let args = format_tags(&cfg_with(ScanMode::WriteExtraTags), &track("track.flac"), "flac");
    assert_eq!(
        args,
        vec![
            "-metadata".to_string(),
            "REPLAYGAIN_TRACK_GAIN=2.00 dB".to_string(),
            "-metadata".to_string(),
            "REPLAYGAIN_TRACK_PEAK=0.9000000".to_string(),
            "-metadata".to_string(),
            "REPLAYGAIN_TRACK_RANGE=7.50 dB".to_string(),
            "-metadata".to_string(),
            "REPLAYGAIN_REFERENCE_LOUDNESS=-18.00 LUFS".to_string(),
        ]
    );
}

#[test]
fn lufs_mode_reexpresses_gain_and_range_in_lu() {
    let args = format_tags(&cfg_with(ScanMode::WriteExtraTagsLufs), &track("track.flac"), "flac");
    assert_eq!(args[1], "REPLAYGAIN_TRACK_GAIN=2.00 LU");
    assert_eq!(args[5], "REPLAYGAIN_TRACK_RANGE=7.50 LU");
    // The reference loudness stays in LUFS whatever the mode.
    assert_eq!(args[7], "REPLAYGAIN_REFERENCE_LOUDNESS=-18.00 LUFS");
    assert_eq!(args.len(), 8);
}

#[test]
fn lowercase_option_lowers_the_general_tag_names_only() {
    let mut cfg = cfg_with(ScanMode::WriteTags);
    cfg.lowercase_tags = true;
    let args = format_tags(&cfg, &track("track.flac"), "flac");
    assert_eq!(args[1], "replaygain_track_gain=2.00 dB");
    assert_eq!(args[3], "replaygain_track_peak=0.9000000");
    // The Opus integer tag has no lowercase variant.
    let args = format_tags(&cfg, &track("track.ogg"), "ogg");
    assert_eq!(args[1], "R128_TRACK_GAIN=512");
}

#[test]
fn opus_family_gets_exactly_one_integer_tag_in_every_writing_mode() {
    for mode in [ScanMode::WriteTags, ScanMode::WriteExtraTags, ScanMode::WriteExtraTagsLufs] {
        let args = format_tags(&cfg_with(mode), &track("track.ogg"), "ogg");
        // 2.00 dB * 256 = 512.
        assert_eq!(args, vec!["-metadata".to_string(), "R128_TRACK_GAIN=512".to_string()]);
    }
}

#[test]
fn delete_set_clears_twelve_general_tags_in_both_casings() {
    let args = format_delete_tags("flac");
    assert_eq!(args.len(), 24, "12 clear operations");
    let expected_keys = [
        "REPLAYGAIN_TRACK_GAIN",
        "replaygain_track_gain",
        "REPLAYGAIN_TRACK_PEAK",
        "replaygain_track_peak",
        "REPLAYGAIN_TRACK_RANGE",
        "replaygain_track_range",
        "REPLAYGAIN_ALBUM_GAIN",
        "replaygain_album_gain",
        "REPLAYGAIN_ALBUM_PEAK",
        "replaygain_album_peak",
        "REPLAYGAIN_ALBUM_RANGE",
        "replaygain_album_range",
    ];
    for (i, key) in expected_keys.iter().enumerate() {
        assert_eq!(args[2 * i], "-metadata");
        assert_eq!(args[2 * i + 1], format!("{}=", key));
    }
}

#[test]
fn delete_set_clears_the_two_r128_tags_for_opus() {
    let args = format_delete_tags("ogg");
    assert_eq!(
        args,
        vec![
            "-metadata".to_string(),
            "R128_TRACK_GAIN=".to_string(),
            "-metadata".to_string(),
            "R128_ALBUM_GAIN=".to_string(),
        ]
    );
}

#[test]
fn rewriter_command_copies_streams_and_appends_tags_and_output() {
    let tag_args = vec!["-metadata".to_string(), "A=B".to_string()];
    let cmd = rewriter_command("in.flac", &tag_args, "/tmp/out.flac");
    assert_eq!(
        cmd,
        vec![
            "ffmpeg".to_string(),
            "-hide_banner".to_string(),
            "-i".to_string(),
            "in.flac".to_string(),
            "-map".to_string(),
            "0".to_string(),
            "-y".to_string(),
            "-codec".to_string(),
            "copy".to_string(),
            "-metadata".to_string(),
            "A=B".to_string(),
            "/tmp/out.flac".to_string(),
        ]
    );
}

#[test]
fn dont_write_tags_is_a_no_op() {
    let plan = save_tags(&cfg_with(ScanMode::DontWriteTags), &track("track.flac")).unwrap();
    assert!(matches!(plan, SaveTagsPlan::NoOp));
}

#[test]
fn delete_tags_plans_one_clear_pass() {
    let plan = save_tags(&cfg_with(ScanMode::DeleteTags), &track("track.flac")).unwrap();
    match plan {
        SaveTagsPlan::Rewrite { passes } => {
            assert_eq!(passes, vec![format_delete_tags("flac")]);
        }
        other => panic!("expected Rewrite, got {:?}", std::mem::discriminant(&other)),
    }
}

#[test]
fn write_tags_plans_the_gain_pass() {
    let cfg = cfg_with(ScanMode::WriteTags);
    let t = track("track.flac");
    let plan = save_tags(&cfg, &t).unwrap();
    match plan {
        SaveTagsPlan::Rewrite { passes } => {
            assert_eq!(passes, vec![format_tags(&cfg, &t, "flac")]);
        }
        _ => panic!("expected Rewrite"),
    }
}

#[test]
fn strip_option_adds_a_wipe_pass_before_the_gain_pass() {
    let mut cfg = cfg_with(ScanMode::WriteTags);
    cfg.strip = true;
    let t = track("track.flac");
    let plan = save_tags(&cfg, &t).unwrap();
    match plan {
        SaveTagsPlan::Rewrite { passes } => {
            assert_eq!(passes.len(), 2);
            assert_eq!(passes[0], wipe_args());
            assert_eq!(passes[0], vec!["-map_metadata".to_string(), "-1".to_string()]);
            assert_eq!(passes[1], format_tags(&cfg, &t, "flac"));
        }
        _ => panic!("expected Rewrite"),
    }
}

#[test]
fn a_file_without_extension_cannot_be_tagged() {
    for mode in [ScanMode::DeleteTags, ScanMode::WriteTags] {
        match save_tags(&cfg_with(mode), &track("noext")) {
            Err(ScanError::IoError(_)) => {}
            other => panic!("expected IoError, got {:?}", other),
        }
    }
}

#[test]
fn swap_plan_copies_beside_the_original_then_renames_over_it() {
    let plan = swap_files("/music/track.flac", "/tmp/loudgain-x.flac").unwrap();
    assert_eq!(plan.copy_from, "/tmp/loudgain-x.flac");
    assert_eq!(plan.copy_to, "/music/loudgain-x.flac");
    assert_eq!(plan.rename_to, "/music/track.flac");
    // The original path is only the rename target: a failure before the
    // rename leaves it untouched.
    assert_ne!(plan.copy_to, plan.rename_to);
}

#[test]
fn swap_plan_for_a_bare_file_name_stays_in_the_working_directory() {
    let plan = swap_files("track.flac", "/tmp/loudgain-y.flac").unwrap();
    assert_eq!(plan.copy_to, "loudgain-y.flac");
    assert_eq!(plan.rename_to, "track.flac");
}

#[test]
fn swap_rejects_a_nameless_original_or_output() {
    // An original with no file name component: empty, the root, or a
    // path ending in a separator.
    for old in ["", "/", "music/"] {
        match swap_files(old, "/tmp/out.flac") {
            Err(ScanError::IoError(_)) => {}
            other => panic!("expected IoError for {:?}, got {:?}", old, other),
        }
    }
    match swap_files("/music/track.flac", "/tmp/dir/") {
        Err(ScanError::IoError(_)) => {}
        other => panic!("expected IoError, got {:?}", other),
    }
}
