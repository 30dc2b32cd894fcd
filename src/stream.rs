//! The pull interface that every generator and every wrapper offers.
use vstd::prelude::*;

verus! {

/// A pull-based, possibly endless stream of Q16 samples.
///
/// Each stream is deterministic: `peek` is what the next pull yields and
/// `advance` is the stream after that pull. Wrappers are defined over the
/// same two functions of the stream they wrap.
pub trait SampleStream: Sized {
    /// The stream's internal invariant.
    spec fn wf(&self) -> bool;

    /// The value that the next call of `next_sample` returns.
    spec fn peek(&self) -> Option<i32>;

    /// The stream after one call of `next_sample`.
    spec fn advance(&self) -> Self;

    /// Samples per second.
    spec fn rate(&self) -> u32;

    /// Interleaved channels.
    spec fn channel_count(&self) -> u16;

    /// How much of the stream is left, in samples of its own clock, where
    /// that is known: pulls left before a cut, or time left before the last
    /// breakpoint of an envelope.
    spec fn remaining(&self) -> Option<u64>;

    /// Pulls one sample; `None` is the end of the stream.
    fn next_sample(&mut self) -> (r: Option<i32>)
        requires
            old(self).wf(),
        ensures
            r == old(self).peek(),
            *final(self) == old(self).advance(),
            final(self).wf(),
            final(self).rate() == old(self).rate(),
    ;

    /// The number of interleaved channels.
    fn channels(&self) -> (r: u16)
        ensures
            r == self.channel_count(),
    ;

    /// Samples per second.
    fn sample_rate(&self) -> (r: u32)
        ensures
            r == self.rate(),
    ;

    /// How much of the stream is left, in samples of its own clock, or
    /// `None` where the stream does not know.
    fn remaining_samples(&self) -> (r: Option<u64>)
        requires
            self.wf(),
        ensures
            r == self.remaining(),
    ;
}

} // verus!

verus! {

/// The stream after `k` pulls.
pub open spec fn after<S: SampleStream>(s: S, k: nat) -> S
    decreases k,
{
    if k == 0 {
        s
    } else {
        after(s.advance(), (k - 1) as nat)
    }
}

/// What pull number `k` (counting from zero) yields.
pub open spec fn pulled<S: SampleStream>(s: S, k: nat) -> Option<i32> {
    after(s, k).peek()
}

} // verus!

verus! {

/// Pulling `a` samples and then `b` more is pulling `a + b`.
pub proof fn lemma_after_after<S: SampleStream>(s: S, a: nat, b: nat)
    ensures
        after(after(s, a), b) == after(s, a + b),
    decreases a,
{
    if a > 0 {
        lemma_after_after(s.advance(), (a - 1) as nat, b);
        assert((a - 1) as nat + b == (a + b - 1) as nat);
    }
}

/// A stream that a pull leaves unchanged stays unchanged.
pub proof fn lemma_after_fixed<S: SampleStream>(s: S, k: nat)
    requires
        s.advance() == s,
    ensures
        after(s, k) == s,
    decreases k,
{
    if k > 0 {
        lemma_after_fixed(s, (k - 1) as nat);
    }
}

} // verus!
