//! Loudness-normalization core: a strongly-typed loudness unit algebra held
//! in exact fixed-point form, a gain calculator with clip avoidance, and the
//! tag-write state machine that plans the metadata rewrite of an audio file.
//!
//! Decoding audio, measuring loudness and running the metadata rewriter are
//! outside collaborators; this crate computes what they are asked to do and
//! what is written back, and proves those computations against their
//! specifications.

pub mod args;
pub mod decimal;
pub mod decode_audio;
pub mod error;
pub mod gain;
pub mod loudness_types;
pub mod paths;
pub mod replaygain_scanner;
pub mod tags;
