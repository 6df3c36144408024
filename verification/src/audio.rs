//! Audio rendering: turning the engine's output tensor into a playable sample
//! buffer with a fixed format.
//!
//! Samples are carried as the bit patterns of 32-bit IEEE float samples; the
//! unverified shell converts them when encoding the audio file. The format is
//! fixed: mono, 24000 Hz, 32 bits per sample.

use vstd::prelude::*;

use crate::tensor::AudioTensor;

verus! {

/// Samples per second of every rendered buffer.
pub const SAMPLE_RATE: u32 = 24000;

/// Channels of every rendered buffer.
pub const CHANNELS: u16 = 1;

/// Bits per sample of every rendered buffer.
pub const BITS_PER_SAMPLE: u16 = 32;

/// Samples per millisecond at SAMPLE_RATE.
pub const SAMPLES_PER_MS: usize = 24;

/// A flat, mono sample buffer at SAMPLE_RATE, each sample the bit pattern of
/// one 32-bit IEEE float sample.
#[derive(Debug, Clone, PartialEq)]
pub struct AudioBuffer {
    pub samples: Vec<u32>,
}

/// Flattens the output tensor into a sample buffer: the samples are the
/// tensor's data, in order, none dropped and none added.
pub fn render(tensor: AudioTensor) -> (r: AudioBuffer)
    ensures
        r.samples@ == tensor.data@,
{
    AudioBuffer { samples: tensor.data }
}

impl AudioBuffer {
    /// Number of samples held.
    pub fn sample_count(&self) -> (r: usize)
        ensures
            r == self.samples@.len(),
    {
        self.samples.len()
    }

    /// Audio duration in whole milliseconds: the sample count over the sample
    /// rate, so one millisecond per SAMPLES_PER_MS samples, rounded down.
    pub fn duration_ms(&self) -> (r: usize)
        ensures
            r == self.samples@.len() as int / (SAMPLES_PER_MS as int),
    {
        self.samples.len() / SAMPLES_PER_MS
    }
}

} // verus!
