//! The decoded-audio record handed over by the decoding collaborator.
//!
//! Decoding itself (opening the file, turning the container into PCM) is an
//! outside concern; the library only defines the shape of its result:
//! interleaved 16-bit samples with a channel count and a sample rate.

use vstd::prelude::*;

verus! {

/// One file's worth of decoded audio.
pub struct DecodedFile {
    /// Interleaved signed 16-bit PCM samples.
    pub pcm: Vec<i16>,
    /// Number of interleaved channels; always at least one.
    pub channels: u32,
    /// Sample rate in hertz.
    pub rate: u32,
}

impl DecodedFile {
    /// Packs decoded samples with their channel count and sample rate.
    /// A decode that reports zero channels is degenerate and is rejected
    /// by the caller before this record is built.
    pub fn new(pcm: Vec<i16>, channels: u32, rate: u32) -> (r: Self)
        requires
            channels >= 1,
        ensures
            r.pcm == pcm,
            r.channels == channels,
            r.rate == rate,
    {
        Self { pcm, channels, rate }
    }
}

} // verus!
