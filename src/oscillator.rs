//! Oscillators that compute each sample's phase afresh from the number of
//! samples played, so that no rounding error builds up over time.
use vstd::prelude::*;
use crate::fixed::PHASE_PERIOD;
use crate::stream::SampleStream;
use crate::waveform::{square, square_value, triangle, triangle_value};

verus! {

/// The phase of sample `n` of an oscillator at `hertz` (Q16) and `rate`
/// samples per second: the fractional part of `n * hertz / rate`.
pub open spec fn counter_phase(n: int, hertz: int, rate: int) -> u32 {
    (((n * hertz * 65536) / rate) % (PHASE_PERIOD as int)) as u32
}

/// The number of samples after which an oscillator's phases repeat exactly.
pub open spec fn counter_cycle(rate: int) -> int {
    rate * 65536
}

fn phase_of(n: u64, hertz: u32, rate: u32) -> (r: u32)
    requires
        rate > 0,
        n < counter_cycle(rate as int),
    ensures
        r == counter_phase(n as int, hertz as int, rate as int),
{
    proof {
        assert(n as int * hertz as int <= 0x1_0000_0000_0000 * 0x1_0000_0000) by (nonlinear_arith)
            requires
                n <= 0x1_0000_0000_0000,
                hertz <= 0xFFFF_FFFF,
        ;
        assert(n as int * hertz as int * 65536 <= 0x1_0000_0000_0000 * 0x1_0000_0000 * 65536)
            by (nonlinear_arith)
            requires
                n as int * hertz as int <= 0x1_0000_0000_0000 * 0x1_0000_0000,
        ;
        assert(n < 0x1_0000_0000_0000) by (nonlinear_arith)
            requires
                n < rate as int * 65536,
                rate <= 0xFFFF_FFFF,
        ;
    }
    ((((n as u128) * (hertz as u128) * 65536) / (rate as u128)) % (PHASE_PERIOD as u128)) as u32
}

fn next_count(n: u64, rate: u32) -> (r: u64)
    requires
        rate > 0,
        n < counter_cycle(rate as int),
    ensures
        r == (n + 1) % counter_cycle(rate as int),
        r < counter_cycle(rate as int),
{
    ((n as u128 + 1) % ((rate as u128) * 65536)) as u64
}

/// A square-wave oscillator.
pub struct SquareWave {
    current_sample: u64,
    sample_rate: u32,
    hertz: u32,
}

/// An oscillator with a triangle-shaped wave: it rises over the first half
/// of each period and falls over the second.
pub struct SawtoothWave {
    current_sample: u64,
    sample_rate: u32,
    hertz: u32,
}

impl SquareWave {
    /// A square wave at `hertz` (Q16) and `sample_rate`, from phase zero.
    pub fn new(sample_rate: u32, hertz: u32) -> (r: Self)
        requires
            sample_rate > 0,
        ensures
            r.wf(),
            r.count() == 0,
            r.frequency() == hertz,
            r.rate() == sample_rate,
    {
        SquareWave { current_sample: 0, sample_rate, hertz }
    }

    /// Samples played, counted round every `counter_cycle` samples.
    pub closed spec fn count(&self) -> u64 {
        self.current_sample
    }

    /// The frequency, in Q16 hertz.
    pub closed spec fn frequency(&self) -> u32 {
        self.hertz
    }
}

impl SawtoothWave {
    /// A triangle-shaped wave at `hertz` (Q16) and `sample_rate`, from phase
    /// zero.
    pub fn new(sample_rate: u32, hertz: u32) -> (r: Self)
        requires
            sample_rate > 0,
        ensures
            r.wf(),
            r.count() == 0,
            r.frequency() == hertz,
            r.rate() == sample_rate,
    {
        SawtoothWave { current_sample: 0, sample_rate, hertz }
    }

    /// Samples played, counted round every `counter_cycle` samples.
    pub closed spec fn count(&self) -> u64 {
        self.current_sample
    }

    /// The frequency, in Q16 hertz.
    pub closed spec fn frequency(&self) -> u32 {
        self.hertz
    }
}

impl SampleStream for SquareWave {
    open spec fn wf(&self) -> bool {
        self.rate() > 0 && self.count() < counter_cycle(self.rate() as int)
    }

    open spec fn peek(&self) -> Option<i32> {
        Some(
            square_value(
                counter_phase(self.count() as int, self.frequency() as int, self.rate() as int),
            ) as i32,
        )
    }

    closed spec fn advance(&self) -> Self {
        SquareWave {
            current_sample: ((self.current_sample + 1) % counter_cycle(
                self.sample_rate as int,
            )) as u64,
            ..*self
        }
    }

    closed spec fn rate(&self) -> u32 {
        self.sample_rate
    }

    open spec fn channel_count(&self) -> u16 {
        1
    }

    open spec fn remaining(&self) -> Option<u64> {
        None
    }

    fn next_sample(&mut self) -> (r: Option<i32>) {
        let v = square(phase_of(self.current_sample, self.hertz, self.sample_rate));
        self.current_sample = next_count(self.current_sample, self.sample_rate);
        Some(v)
    }

    fn channels(&self) -> (r: u16) {
        1
    }

    fn sample_rate(&self) -> (r: u32) {
        self.sample_rate
    }

    fn remaining_samples(&self) -> (r: Option<u64>) {
        None
    }
}

impl SampleStream for SawtoothWave {
    open spec fn wf(&self) -> bool {
        self.rate() > 0 && self.count() < counter_cycle(self.rate() as int)
    }

    open spec fn peek(&self) -> Option<i32> {
        Some(
            triangle_value(
                counter_phase(self.count() as int, self.frequency() as int, self.rate() as int),
            ) as i32,
        )
    }

    closed spec fn advance(&self) -> Self {
        SawtoothWave {
            current_sample: ((self.current_sample + 1) % counter_cycle(
                self.sample_rate as int,
            )) as u64,
            ..*self
        }
    }

    closed spec fn rate(&self) -> u32 {
        self.sample_rate
    }

    open spec fn channel_count(&self) -> u16 {
        1
    }

    open spec fn remaining(&self) -> Option<u64> {
        None
    }

    fn next_sample(&mut self) -> (r: Option<i32>) {
        let v = triangle(phase_of(self.current_sample, self.hertz, self.sample_rate));
        self.current_sample = next_count(self.current_sample, self.sample_rate);
        Some(v)
    }

    fn channels(&self) -> (r: u16) {
        1
    }

    fn sample_rate(&self) -> (r: u32) {
        self.sample_rate
    }

    fn remaining_samples(&self) -> (r: Option<u64>) {
        None
    }
}

} // verus!

verus! {

/// Counting round every `counter_cycle` samples changes no phase: the
/// oscillator plays exactly what an unbounded counter would.
pub proof fn lemma_counter_cycle(n: nat, hertz: nat, rate: nat)
    requires
        rate > 0,
    ensures
        counter_phase(n + counter_cycle(rate as int), hertz as int, rate as int)
            == counter_phase(n as int, hertz as int, rate as int),
{
    let r = rate as int;
    let h = hertz as int;
    let x: int = n * h * 65536;
    let y: int = (n + r * 65536) * h * 65536;
    let j: int = h * 65536 * 65536;
    assert(y == x + j * r) by (nonlinear_arith)
        requires
            x == n * h * 65536,
            y == (n + r * 65536) * h * 65536,
            j == h * 65536 * 65536,
    ;
    vstd::arithmetic::div_mod::lemma_hoist_over_denominator(x, j, rate);
    let q: int = x / r;
    assert(q + j == 0x1_0000_0000 * h + q);
    vstd::arithmetic::div_mod::lemma_mod_multiples_vanish(h, q, 0x1_0000_0000);
}

} // verus!

verus! {

/// One pull of a square-wave oscillator moves its count on by one, round
/// every `counter_cycle` samples, and changes nothing else.
pub proof fn lemma_square_advance(s: SquareWave)
    requires
        s.wf(),
    ensures
        s.advance().count() as int == (s.count() + 1) % counter_cycle(s.rate() as int),
        s.advance().frequency() == s.frequency(),
        s.advance().rate() == s.rate(),
        s.advance().wf(),
{
    vstd::arithmetic::div_mod::lemma_mod_bound(
        (s.current_sample + 1) as int,
        counter_cycle(s.sample_rate as int),
    );
}

/// One pull of a triangle-shaped oscillator moves its count on by one,
/// round every `counter_cycle` samples, and changes nothing else.
pub proof fn lemma_sawtooth_advance(s: SawtoothWave)
    requires
        s.wf(),
    ensures
        s.advance().count() as int == (s.count() + 1) % counter_cycle(s.rate() as int),
        s.advance().frequency() == s.frequency(),
        s.advance().rate() == s.rate(),
        s.advance().wf(),
{
    vstd::arithmetic::div_mod::lemma_mod_bound(
        (s.current_sample + 1) as int,
        counter_cycle(s.sample_rate as int),
    );
}

} // verus!
