//! Periodic functions: one period of a waveform, read at a phase.
use vstd::prelude::*;
use crate::fixed::{HALF_PHASE, ONE, in_full_scale};

verus! {

/// A periodic function over one period `[0, 1)`, given as `u32` phase steps,
/// whose values are Q16 amplitudes in full scale.
pub trait PeriodicFunction {
    /// The amplitude at `phase`.
    spec fn value(&self, phase: u32) -> int;

    /// Evaluates the function at `phase`.
    fn evaluate(&self, phase: u32) -> (r: i32)
        ensures
            r as int == self.value(phase),
            in_full_scale(r as int),
    ;
}

/// The built-in periodic functions.
#[derive(Clone, Copy, Debug, PartialEq, Eq, Structural)]
pub enum Waveform {
    /// Full scale for the first half of the period, then negative full scale.
    Square,
    /// Rises from `-1` to `1` over the first half and falls back over the second.
    Triangle,
    /// Rises linearly from `-1` to `1` over the whole period.
    Sawtooth,
    /// Full scale while the phase is below `width` steps, negative full scale after.
    Pulse { width: u32 },
}

/// The square wave at `phase`.
pub open spec fn square_value(phase: u32) -> int {
    if phase < HALF_PHASE { ONE as int } else { -ONE }
}

/// The triangle wave at `phase`: `(t < 1/2 ? 4 : -4) * ((t mod 1/2) - 1/4)`,
/// rounded down to Q16 before the sign is applied.
pub open spec fn triangle_value(phase: u32) -> int {
    let m = phase as int % (HALF_PHASE as int);
    let v = m / 16384 - ONE;
    if phase < HALF_PHASE { v } else { -v }
}

/// The sawtooth wave at `phase`: `2t - 1`, rounded down to Q16.
pub open spec fn sawtooth_value(phase: u32) -> int {
    phase as int / 32768 - ONE
}

/// A pulse wave with the given `width` at `phase`.
pub open spec fn pulse_value(width: u32, phase: u32) -> int {
    if phase < width { ONE as int } else { -ONE }
}

impl Waveform {
    /// The pulse wave that is high for the first `width` phase steps.
    pub fn pulse(width: u32) -> (r: Waveform)
        ensures
            r == (Waveform::Pulse { width }),
    {
        Waveform::Pulse { width }
    }
}

impl PeriodicFunction for Waveform {
    open spec fn value(&self, phase: u32) -> int {
        match *self {
            Waveform::Square => square_value(phase),
            Waveform::Triangle => triangle_value(phase),
            Waveform::Sawtooth => sawtooth_value(phase),
            Waveform::Pulse { width } => pulse_value(width, phase),
        }
    }

    fn evaluate(&self, phase: u32) -> (r: i32) {
        match *self {
            Waveform::Square => square(phase),
            Waveform::Triangle => triangle(phase),
            Waveform::Sawtooth => sawtooth(phase),
            Waveform::Pulse { width } => pulse(width, phase),
        }
    }
}

/// The square wave at `phase`.
pub fn square(phase: u32) -> (r: i32)
    ensures
        r as int == square_value(phase),
        in_full_scale(r as int),
{
    if phase < HALF_PHASE {
        65536
    } else {
        -65536
    }
}

/// The triangle wave at `phase`.
pub fn triangle(phase: u32) -> (r: i32)
    ensures
        r as int == triangle_value(phase),
        in_full_scale(r as int),
{
    let m: u32 = phase % HALF_PHASE;
    let v: i32 = (m / 16384) as i32 - 65536;
    if phase < HALF_PHASE {
        v
    } else {
        -v
    }
}

/// The sawtooth wave at `phase`.
pub fn sawtooth(phase: u32) -> (r: i32)
    ensures
        r as int == sawtooth_value(phase),
        in_full_scale(r as int),
{
    (phase / 32768) as i32 - 65536
}

/// A pulse wave of the given `width` at `phase`.
pub fn pulse(width: u32, phase: u32) -> (r: i32)
    ensures
        r as int == pulse_value(width, phase),
        in_full_scale(r as int),
{
    if phase < width {
        65536
    } else {
        -65536
    }
}

} // verus!
