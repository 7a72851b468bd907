//! Control plane and sample plumbing of a real-time multichannel audio DSP.
//!
//! The library holds what the DSP engine decides with integers and text:
//! 24-bit sample handling, channel (de)interleaving, the parameter model of
//! the processing slots, and the commands that the remote control sends.
//! The numeric type of gains and Q factors is a type parameter `F`.

use vstd::prelude::*;

pub mod audio_core;
pub mod control;
pub mod dsp;
pub mod errors;
pub mod math_utils;
pub mod text;

verus! {

/// Number of audio channels the engine processes.
pub const SYSTEM_DSP_CHANNELS: usize = 2;

/// Samples per channel in one block.
pub const SYSTEM_DSP_CHANNEL_BUFFER: usize = 128;

/// Samples in one interleaved block.
pub const SYSTEM_DSP_BUFFER_LENGTH: usize = 256;

/// Sample rate in Hz.
pub const SYSTEM_DSP_SAMPLE_RATE: u32 = 48000;

/// Peak hold time of the meters, in samples.
pub const PPM_HOLD_TIME: u32 = 28800;

/// Integration window of the RMS meters, in samples.
pub const RMS_INTEGRATION_TIME: u32 = 14400;

} // verus!
