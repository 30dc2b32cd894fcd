//! Bounding a stream, and the windowed dot product of two streams.
use vstd::prelude::*;
use crate::stream::SampleStream;

verus! {

/// The dot product of the first `n` pairs of samples of two streams, pulled
/// together and stopping where either ends, in Q32 units (the product of two
/// Q16 samples).
pub open spec fn dot<S1: SampleStream, S2: SampleStream>(s1: S1, s2: S2, n: nat) -> int
    decreases n,
{
    if n == 0 {
        0
    } else {
        match s1.peek() {
            None => 0,
            Some(x) => match s2.peek() {
                None => 0,
                Some(y) => x * y + dot(s1.advance(), s2.advance(), (n - 1) as nat),
            },
        }
    }
}

/// The number of samples that a stream plays in `duration_ns` nanoseconds
/// at `rate` samples per second on `channels` channels, rounded down and
/// capped at `u64::MAX`.
pub open spec fn duration_samples(duration_ns: u64, rate: u32, channels: u16) -> int {
    let n = (duration_ns * rate * channels) / 1_000_000_000int;
    if n > u64::MAX { u64::MAX as int } else { n }
}

/// The dot product of two streams over at most `samples` pairs, in Q32
/// units; zero for an empty window.
pub fn dot_prod_samples<S1: SampleStream, S2: SampleStream>(
    source1: S1,
    source2: S2,
    samples: u64,
) -> (r: i128)
    requires
        source1.wf(),
        source2.wf(),
    ensures
        r as int == dot(source1, source2, samples as nat),
{
    let mut s1 = source1;
    let mut s2 = source2;
    let mut acc: i128 = 0;
    let mut i: u64 = 0;
    while i < samples
        invariant
            s1.wf(),
            s2.wf(),
            i <= samples,
            acc + dot(s1, s2, (samples - i) as nat) == dot(source1, source2, samples as nat),
            -(i as int) * 0x4000_0000_0000_0000 <= acc <= (i as int) * 0x4000_0000_0000_0000,
        decreases samples - i,
    {
        let a = s1.next_sample();
        match a {
            None => {
                return acc;
            },
            Some(x) => {
                let b = s2.next_sample();
                match b {
                    None => {
                        return acc;
                    },
                    Some(y) => {
                        proof {
                            assert(-0x4000_0000_0000_0000 <= x * y <= 0x4000_0000_0000_0000)
                                by (nonlinear_arith)
                                requires
                                    -0x8000_0000 <= x <= 0x8000_0000,
                                    -0x8000_0000 <= y <= 0x8000_0000,
                            ;
                        }
                        acc = acc + (x as i128) * (y as i128);
                        i = i + 1;
                    },
                }
            },
        }
    }
    acc
}

/// The dot product of two streams over the samples that the first one
/// plays in `duration_ns` nanoseconds, in Q32 units.
pub fn dot_prod_duration<S1: SampleStream, S2: SampleStream>(
    source1: S1,
    source2: S2,
    duration_ns: u64,
) -> (r: i128)
    requires
        source1.wf(),
        source2.wf(),
    ensures
        r as int == dot(
            source1,
            source2,
            duration_samples(duration_ns, source1.rate(), source1.channel_count()) as nat,
        ),
{
    let rate = source1.sample_rate();
    let channels = source1.channels();
    proof {
        assert(duration_ns as int * rate as int <= 0xFFFF_FFFF_FFFF_FFFF_FFFF_FFFF)
            by (nonlinear_arith)
            requires
                duration_ns <= 0xFFFF_FFFF_FFFF_FFFF,
                rate <= 0xFFFF_FFFF,
        ;
        assert(duration_ns as int * rate as int * channels as int <= 0xFFFF_FFFF_FFFF_FFFF_FFFF_FFFF_FFFF)
            by (nonlinear_arith)
            requires
                duration_ns <= 0xFFFF_FFFF_FFFF_FFFF,
                rate <= 0xFFFF_FFFF,
                channels <= 0xFFFF,
        ;
    }
    let n: u128 = (duration_ns as u128) * (rate as u128) * (channels as u128) / 1_000_000_000;
    let count: u64 = if n > u64::MAX as u128 {
        u64::MAX
    } else {
        n as u64
    };
    dot_prod_samples(source1, source2, count)
}

/// A stream cut off after a number of pulls.
pub struct TakeSamples<S: SampleStream> {
    source: S,
    left: u64,
}

impl<S: SampleStream> TakeSamples<S> {
    /// The stream being cut off.
    pub closed spec fn inner(&self) -> S {
        self.source
    }

    /// Pulls left before the cut.
    pub closed spec fn left(&self) -> u64 {
        self.left
    }
}

/// `source`, cut off after `n` pulls.
pub fn take_samples<S: SampleStream>(source: S, n: u64) -> (r: TakeSamples<S>)
    requires
        source.wf(),
    ensures
        r.wf(),
        r.inner() == source,
        r.left() == n,
{
    TakeSamples { source, left: n }
}

impl<S: SampleStream> SampleStream for TakeSamples<S> {
    open spec fn wf(&self) -> bool {
        self.inner().wf()
    }

    open spec fn peek(&self) -> Option<i32> {
        if self.left() == 0 {
            None
        } else {
            self.inner().peek()
        }
    }

    closed spec fn advance(&self) -> Self {
        if self.left == 0 {
            *self
        } else {
            TakeSamples { source: self.source.advance(), left: (self.left - 1) as u64 }
        }
    }

    open spec fn rate(&self) -> u32 {
        self.inner().rate()
    }

    open spec fn channel_count(&self) -> u16 {
        self.inner().channel_count()
    }

    open spec fn remaining(&self) -> Option<u64> {
        match self.inner().remaining() {
            None => Some(self.left()),
            Some(n) => Some(if n < self.left() { n } else { self.left() }),
        }
    }

    fn next_sample(&mut self) -> (r: Option<i32>) {
        if self.left == 0 {
            return None;
        }
        self.left = self.left - 1;
        self.source.next_sample()
    }

    fn channels(&self) -> (r: u16) {
        self.source.channels()
    }

    fn sample_rate(&self) -> (r: u32) {
        self.source.sample_rate()
    }

    fn remaining_samples(&self) -> (r: Option<u64>) {
        match self.source.remaining_samples() {
            None => Some(self.left),
            Some(n) => Some(if n < self.left { n } else { self.left }),
        }
    }
}

} // verus!

verus! {

/// One pull of a cut-off stream pulls the inner stream once and counts one
/// pull off, until none are left; then it changes nothing.
pub proof fn lemma_advance<S: SampleStream>(t: TakeSamples<S>)
    ensures
        t.left() == 0 ==> t.advance() == t,
        t.left() > 0 ==> t.advance().inner() == t.inner().advance() && t.advance().left() == t.left()
            - 1,
{
}

} // verus!
