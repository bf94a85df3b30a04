//! Verified core of a stem-separation audio pipeline.
//!
//! The library covers the signal path that surrounds neural source
//! separation: sample buffers, global normalization around inference,
//! the per-stem post-processing filter bank, click repair, tempo and key
//! estimation, the lazy model loader's state machine, and a decoder
//! for plain PCM WAV bytes.  Samples are held in a fixed-point
//! representation (millionths of full scale), so every arithmetic
//! step has an exact, machine-checked description.  Compressed-audio
//! codecs, file I/O and the neural network itself stay outside:
//! callers hand the library plain bytes and buffers and receive
//! plain buffers back.

pub mod analysis;
pub mod buffer;
pub mod data;
pub mod filters;
pub mod fixed;
pub mod loader;
pub mod noise;
pub mod normalize;
pub mod repair;
pub mod resample;
pub mod split;
pub mod stems;
pub mod wav;
