//! Fixed sizes of the synthesizer.

use vstd::prelude::*;

verus! {

/// Number of independent channels (each one a polyphonic synth).
pub const CHANNEL_COUNT: usize = 4;

/// Number of voices in each channel's pool.
pub const VOICE_COUNT: usize = 4;

/// Capacity of a sequencer's step grid.
pub const MAX_STEPS: usize = 32;

/// Sample rate handed to the oscillators and filters, in Hz.
pub const SAMPLE_HZ: u32 = 44100;

} // verus!
