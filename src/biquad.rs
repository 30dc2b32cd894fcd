//! Second-order recursive (biquad) filters.
use vstd::prelude::*;
use crate::fixed::{ONE, div_floor};
use crate::stream::{SampleStream, pulled};

verus! {

/// The five coefficients of `y = b0*x + b1*x1 + b2*x2 - a1*y1 - a2*y2`, as
/// Q16 numbers.
#[derive(Clone, Copy, Debug, PartialEq, Eq, Structural)]
pub struct BiQuad {
    pub b0: i32,
    pub b1: i32,
    pub b2: i32,
    pub a1: i32,
    pub a2: i32,
}

/// The last two inputs (`x1`, `x2`) and outputs (`y1`, `y2`) of a filter,
/// most recent first.
pub type History = (i32, i32, i32, i32);

/// `v` held to the range of `i32`.
pub open spec fn saturate(v: int) -> int {
    if v < i32::MIN { i32::MIN as int } else if v > i32::MAX { i32::MAX as int } else { v }
}

/// The filter's output for input `x` after history `h`: the recurrence in
/// exact arithmetic, rounded down to Q16, and held to the range of `i32`
/// where an unstable filter runs past it.
pub open spec fn filter_output(c: BiQuad, h: History, x: int) -> int {
    let acc = c.b0 * x + c.b1 * h.0 + c.b2 * h.1 - c.a1 * h.2 - c.a2 * h.3;
    saturate(acc / ONE as int)
}

/// The coefficients that pass every input through unchanged.
pub open spec fn is_identity(c: BiQuad) -> bool {
    c.b0 == ONE && c.b1 == 0 && c.b2 == 0 && c.a1 == 0 && c.a2 == 0
}

impl BiQuad {
    /// A filter with the given coefficients.
    pub fn new(a1: i32, a2: i32, b0: i32, b1: i32, b2: i32) -> (r: BiQuad)
        ensures
            r == (BiQuad { b0, b1, b2, a1, a2 }),
    {
        BiQuad { b0, b1, b2, a1, a2 }
    }

    /// The output for input `x` after history `h`.
    pub fn output(&self, h: History, x: i32) -> (r: i32)
        ensures
            r as int == filter_output(*self, h, x as int),
    {
        proof {
            lemma_product_bound(self.b0 as int, x as int);
            lemma_product_bound(self.b1 as int, h.0 as int);
            lemma_product_bound(self.b2 as int, h.1 as int);
            lemma_product_bound(self.a1 as int, h.2 as int);
            lemma_product_bound(self.a2 as int, h.3 as int);
        }
        let acc: i128 = (self.b0 as i128) * (x as i128) + (self.b1 as i128) * (h.0 as i128)
            + (self.b2 as i128) * (h.1 as i128) - (self.a1 as i128) * (h.2 as i128)
            - (self.a2 as i128) * (h.3 as i128);
        let q = div_floor(acc, 65536);
        if q < i32::MIN as i128 {
            i32::MIN
        } else if q > i32::MAX as i128 {
            i32::MAX
        } else {
            q as i32
        }
    }

    /// Wraps `source` in this filter, starting from silence.
    pub fn source_from<S: SampleStream>(&self, source: S) -> (r: BiQuadSource<S>)
        requires
            source.wf(),
        ensures
            r.wf(),
            r.biquad() == *self,
            r.inner() == source,
            r.history() == (0i32, 0i32, 0i32, 0i32),
    {
        BiQuadSource { source, biquad: *self, x1: 0, x2: 0, y1: 0, y2: 0 }
    }
}

proof fn lemma_product_bound(a: int, b: int)
    requires
        i32::MIN <= a <= i32::MAX,
        i32::MIN <= b <= i32::MAX,
    ensures
        -0x4000_0000_0000_0000 <= a * b <= 0x4000_0000_0000_0000,
{
    assert(-0x4000_0000_0000_0000 <= a * b <= 0x4000_0000_0000_0000) by (nonlinear_arith)
        requires
            -0x8000_0000 <= a <= 0x8000_0000,
            -0x8000_0000 <= b <= 0x8000_0000,
    ;
}

/// A stream passed through a biquad filter.
pub struct BiQuadSource<S: SampleStream> {
    source: S,
    biquad: BiQuad,
    x1: i32,
    x2: i32,
    y1: i32,
    y2: i32,
}

impl<S: SampleStream> BiQuadSource<S> {
    /// The filter's coefficients.
    pub closed spec fn biquad(&self) -> BiQuad {
        self.biquad
    }

    /// The stream being filtered.
    pub closed spec fn inner(&self) -> S {
        self.source
    }

    /// The last two inputs and outputs.
    pub closed spec fn history(&self) -> History {
        (self.x1, self.x2, self.y1, self.y2)
    }

    /// Seeds the history, to continue from an earlier run of the filter.
    pub fn with_initial_values(&mut self, x1: i32, x2: i32, y1: i32, y2: i32)
        ensures
            final(self).history() == (x1, x2, y1, y2),
            final(self).biquad() == old(self).biquad(),
            final(self).inner() == old(self).inner(),
    {
        self.x1 = x1;
        self.x2 = x2;
        self.y1 = y1;
        self.y2 = y2;
    }
}

impl<S: SampleStream> SampleStream for BiQuadSource<S> {
    open spec fn wf(&self) -> bool {
        self.inner().wf()
    }

    open spec fn peek(&self) -> Option<i32> {
        match self.inner().peek() {
            None => None,
            Some(x) => Some(filter_output(self.biquad(), self.history(), x as int) as i32),
        }
    }

    closed spec fn advance(&self) -> Self {
        match self.source.peek() {
            None => BiQuadSource { source: self.source.advance(), ..*self },
            Some(x) => BiQuadSource {
                source: self.source.advance(),
                biquad: self.biquad,
                x1: x,
                x2: self.x1,
                y1: filter_output(self.biquad, self.history(), x as int) as i32,
                y2: self.y1,
            },
        }
    }

    open spec fn rate(&self) -> u32 {
        self.inner().rate()
    }

    open spec fn channel_count(&self) -> u16 {
        self.inner().channel_count()
    }

    open spec fn remaining(&self) -> Option<u64> {
        self.inner().remaining()
    }

    fn next_sample(&mut self) -> (r: Option<i32>) {
        let s = self.source.next_sample();
        match s {
            None => None,
            Some(x) => {
                let y = self.biquad.output((self.x1, self.x2, self.y1, self.y2), x);
                self.x2 = self.x1;
                self.x1 = x;
                self.y2 = self.y1;
                self.y1 = y;
                Some(y)
            },
        }
    }

    fn channels(&self) -> (r: u16) {
        self.source.channels()
    }

    fn sample_rate(&self) -> (r: u32) {
        self.source.sample_rate()
    }

    fn remaining_samples(&self) -> (r: Option<u64>) {
        self.source.remaining_samples()
    }
}

/// With `b0 = 1` and every other coefficient zero, a filter reproduces its
/// input exactly, sample for sample, whatever its history.
pub proof fn lemma_identity_filter<S: SampleStream>(f: BiQuadSource<S>, k: nat)
    requires
        is_identity(f.biquad()),
    ensures
        pulled(f, k) == pulled(f.inner(), k),
    decreases k,
{
    if k == 0 {
        if let Some(x) = f.inner().peek() {
            assert((ONE * x + 0 * f.history().0 + 0 * f.history().1 - 0 * f.history().2
                - 0 * f.history().3) / ONE as int == x) by (nonlinear_arith);
        }
    } else {
        lemma_identity_filter(f.advance(), (k - 1) as nat);
    }
}

} // verus!

verus! {

/// One pull of a filtered stream pulls the inner stream once; where that
/// yields `x`, the history shifts to take in `x` and the output, and where
/// the inner stream has ended, the history stays as it was.
pub proof fn lemma_advance<S: SampleStream>(f: BiQuadSource<S>)
    ensures
        f.advance().biquad() == f.biquad(),
        f.advance().inner() == f.inner().advance(),
        f.advance().history() == match f.inner().peek() {
            None => f.history(),
            Some(x) => (
                x,
                f.history().0,
                filter_output(f.biquad(), f.history(), x as int) as i32,
                f.history().2,
            ),
        },
{
}

} // verus!
