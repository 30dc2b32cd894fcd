//! A fixed-point synthesis core: wavetables and periodic functions played
//! as sample streams at any pitch, shaped by piecewise-linear envelopes and
//! filtered by biquad filters, all through one pull-based stream interface.
use vstd::prelude::*;

pub mod biquad;
pub mod correlate;
pub mod envelope;
pub mod fixed;
pub mod function_source;
pub mod oscillator;
pub mod schedule;
pub mod stream;
pub mod waveform;
pub mod wavetable;

pub use biquad::{BiQuad, BiQuadSource};
pub use correlate::{TakeSamples, dot_prod_duration, dot_prod_samples, take_samples};
pub use envelope::{Envelope, EnvelopeSource};
pub use function_source::{FunctionSource, SourceFunctionExt};
pub use stream::SampleStream;
pub use waveform::{PeriodicFunction, Waveform};
pub use wavetable::{WaveTable, WaveTableSource};

verus! {

/// The waveform families that a note may be played with.
#[derive(Clone, Copy, Debug, PartialEq, Eq, Structural)]
pub enum Wave {
    Sine,
    Triangle,
    Square,
    Sawtooth,
    Pulse,
}

} // verus!
