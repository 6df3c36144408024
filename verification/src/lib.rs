//! Verified core of a text-to-speech synthesis pipeline.
//!
//! The library covers the numerically and structurally delicate parts of the
//! pipeline: tokenizing a phoneme string against a fixed vocabulary, resolving
//! and blending named voice styles, checking and flattening the tensors handed
//! to the inference engine, selecting the execution device, and turning the
//! engine's output into an audio buffer.
//!
//! Style components are held as fixed-point integers and audio samples as the
//! bit patterns of 32-bit IEEE samples, so every arithmetic step is exact and
//! verified; the thin unverified shell around this crate converts to and from
//! native floating point at the boundary.

pub mod audio;
pub mod chars;
pub mod config;
pub mod device;
pub mod lang;
pub mod synth;
pub mod tensor;
pub mod tokenize;
pub mod voice;

pub use config::OrtConfig;
