//! Scan modes, configuration defaults, extensions and the file filter.

use loudgain_rust::args::{check_for_invalid_extension, has_supported_extension, Config, ScanMode};
use loudgain_rust::error::ScanError;
use loudgain_rust::decode_audio::DecodedFile;
use loudgain_rust::paths::get_file_extension;

#[test]
fn every_mode_letter_decodes_and_encodes() {
    let modes = [
        (ScanMode::DontWriteTags, 's'),
        (ScanMode::DeleteTags, 'd'),
        (ScanMode::WriteTags, 'i'),
        (ScanMode::WriteExtraTags, 'e'),
        (ScanMode::WriteExtraTagsLufs, 'l'),
    ];
    for (mode, letter) in modes {
        assert_eq!(mode.letter(), letter);
        assert_eq!(ScanMode::from_letter(&letter.to_string()).unwrap(), mode);
    }
}

#[test]
fn unknown_mode_letters_are_format_errors() {
    for bad in ["x", "", "si", "S"] {
        match ScanMode::from_letter(bad) {
            Err(ScanError::FormatError(_)) => {}
            other => panic!("expected FormatError for {:?}, got {:?}", bad, other),
        }
    }
}

#[test]
fn default_config_matches_the_reference_tool() {
    let cfg = Config::default();
    assert!(!cfg.no_clip);
    assert_eq!(cfg.max_true_peak.centi_lufs, -100);
    assert_eq!(cfg.pregain.centi_db, 0);
    assert!(!cfg.lowercase_tags);
    assert!(!cfg.strip);
    assert_eq!(cfg.scan_mode, ScanMode::DontWriteTags);
    assert!(!cfg.quiet);
}

#[test]
fn extension_is_what_follows_the_last_dot_of_the_file_name() {
    assert_eq!(get_file_extension("track.flac").as_deref(), Some("flac"));
    assert_eq!(get_file_extension("/a/b/c.tar.gz").as_deref(), Some("gz"));
    assert_eq!(get_file_extension("noext"), None);
    assert_eq!(get_file_extension(".bashrc"), None);
    assert_eq!(get_file_extension("dir/.hidden"), None);
    assert_eq!(get_file_extension("file.").as_deref(), Some(""));
    assert_eq!(get_file_extension("a/b.d/c"), None);
}

#[test]
fn supported_extensions_are_the_scanner_formats() {
    for good in [
        "a.flac", "a.mp3", "a.mp4", "a.m4a", "a.m4b", "a.m4p", "a.m4r", "a.ogg", "a.vorbis",
        "a.wv",
    ] {
        assert!(has_supported_extension(good), "{}", good);
    }
    for bad in ["a.wav", "a.txt", "a", "a.FLAC", "a.aiff"] {
        assert!(!has_supported_extension(bad), "{}", bad);
    }
}

#[test]
fn decoded_file_carries_samples_channels_and_rate() {
    let d = DecodedFile::new(vec![0, 1, -1, 32767], 2, 44100);
    assert_eq!(d.pcm, vec![0, 1, -1, 32767]);
    assert_eq!(d.channels, 2);
    assert_eq!(d.rate, 44100);
}

#[test]
fn file_filter_keeps_supported_paths_in_order() {
    let paths = vec![
        "one.flac".to_string(),
        "two.txt".to_string(),
        "three.ogg".to_string(),
        "four".to_string(),
        "five.mp3".to_string(),
    ];
    let kept = check_for_invalid_extension(paths);
    assert_eq!(kept, vec!["one.flac".to_string(), "three.ogg".to_string(), "five.mp3".to_string()]);
}
