//! Streams that evaluate a periodic function directly at every sample.
use vstd::prelude::*;
use crate::fixed::PHASE_PERIOD;
use crate::stream::SampleStream;
use crate::waveform::PeriodicFunction;
use crate::wavetable::{WaveTable, table_phase};

verus! {

/// The phase step per output sample for `freq` (Q16 hertz) at `rate`
/// samples per second, reduced to one period.
pub open spec fn phase_increment(freq: int, rate: int) -> int {
    ((freq * 65536) / rate) % (PHASE_PERIOD as int)
}

/// Turns a periodic function into a stream or a wavetable.
pub trait SourceFunctionExt: PeriodicFunction + Sized {
    /// A stream of the function at `sample_rate`, starting at phase zero and
    /// stepping one full period per sample until a frequency is set.
    fn source(self, sample_rate: u32) -> (r: FunctionSource<Self>)
        requires
            sample_rate > 0,
        ensures
            r.wf(),
            r.function() == self,
            r.phase() == 0,
            r.increment() == 0,
            r.rate() == sample_rate,
    ;

    /// A table of `sample_num` samples of the function; `None` when
    /// `sample_num` is zero.
    fn wavetable(self, sample_num: u32) -> (r: Option<WaveTable>)
        ensures
            r is None <==> sample_num == 0,
            r matches Some(t) ==> {
                &&& t.wf()
                &&& t@.len() == sample_num
                &&& forall|i: int|
                    0 <= i < sample_num ==> #[trigger] t@[i] as int == self.value(
                        table_phase(i, sample_num as int),
                    )
            },
    ;
}

impl<T: PeriodicFunction> SourceFunctionExt for T {
    fn source(self, sample_rate: u32) -> (r: FunctionSource<Self>) {
        FunctionSource { function: self, index: 0, increment: 0, sample_rate }
    }

    fn wavetable(self, sample_num: u32) -> (r: Option<WaveTable>) {
        WaveTable::from_function(sample_num, self)
    }
}

/// A stream that evaluates a periodic function at an advancing phase.
pub struct FunctionSource<F: PeriodicFunction> {
    function: F,
    index: u32,
    increment: u32,
    sample_rate: u32,
}

impl<F: PeriodicFunction> FunctionSource<F> {
    /// The function being played.
    pub closed spec fn function(&self) -> F {
        self.function
    }

    /// The current phase.
    pub closed spec fn phase(&self) -> u32 {
        self.index
    }

    /// The phase step per sample.
    pub closed spec fn increment(&self) -> u32 {
        self.increment
    }

    /// Retunes the stream to `freq` (Q16 hertz) without moving its phase.
    pub fn set_frequency(&mut self, freq: u64)
        requires
            old(self).wf(),
        ensures
            final(self).wf(),
            final(self).function() == old(self).function(),
            final(self).phase() == old(self).phase(),
            final(self).rate() == old(self).rate(),
            final(self).increment() as int == phase_increment(freq as int, old(self).rate() as int),
    {
        let step: u128 = ((freq as u128) * 65536) / (self.sample_rate as u128);
        self.increment = (step % (PHASE_PERIOD as u128)) as u32;
    }

    /// `set_frequency`, in builder form.
    pub fn with_frequency(self, freq: u64) -> (r: Self)
        requires
            self.wf(),
        ensures
            r.wf(),
            r.function() == self.function(),
            r.phase() == self.phase(),
            r.rate() == self.rate(),
            r.increment() as int == phase_increment(freq as int, self.rate() as int),
    {
        let mut s = self;
        s.set_frequency(freq);
        s
    }
}

impl<F: PeriodicFunction> SampleStream for FunctionSource<F> {
    open spec fn wf(&self) -> bool {
        self.rate() > 0
    }

    open spec fn peek(&self) -> Option<i32> {
        Some(self.function().value(self.phase()) as i32)
    }

    closed spec fn advance(&self) -> Self {
        FunctionSource {
            index: ((self.index + self.increment) % (PHASE_PERIOD as int)) as u32,
            ..*self
        }
    }

    closed spec fn rate(&self) -> u32 {
        self.sample_rate
    }

    open spec fn channel_count(&self) -> u16 {
        1
    }

    open spec fn remaining(&self) -> Option<u64> {
        None
    }

    fn next_sample(&mut self) -> (r: Option<i32>) {
        let v = self.function.evaluate(self.index);
        self.index = (((self.index as u64) + (self.increment as u64)) % PHASE_PERIOD) as u32;
        Some(v)
    }

    fn channels(&self) -> (r: u16) {
        1
    }

    fn sample_rate(&self) -> (r: u32) {
        self.sample_rate
    }

    fn remaining_samples(&self) -> (r: Option<u64>) {
        None
    }
}

} // verus!

verus! {

/// One pull moves a function stream's phase on by its increment, wrapping
/// round after one period, and changes nothing else.
pub proof fn lemma_advance<F: PeriodicFunction>(s: FunctionSource<F>)
    ensures
        s.advance().function() == s.function(),
        s.advance().phase() as int == (s.phase() + s.increment()) % (PHASE_PERIOD as int),
        s.advance().increment() == s.increment(),
        s.advance().rate() == s.rate(),
{
    vstd::arithmetic::div_mod::lemma_mod_bound(
        (s.index + s.increment) as int,
        PHASE_PERIOD as int,
    );
}

} // verus!
