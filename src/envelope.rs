//! Piecewise-linear amplitude envelopes and the streams they shape.
use std::sync::Arc;
use vstd::prelude::*;
use crate::fixed::{ONE, div_floor};
use crate::stream::{SampleStream, after, pulled, lemma_after_after, lemma_after_fixed};

verus! {

/// The latest time a breakpoint may have, so that the elapsed-time counter
/// of a stream never overflows.
pub const MAX_TIME: u64 = 0xFFFF_FFFF_FFFF_FFFE;

/// A breakpoint: a time, counted in samples of the shaped stream, and a Q16
/// gain in `[0, 1]`.
pub type Breakpoint = (u64, u32);

/// Breakpoints that form an envelope: at least one, times in non-decreasing
/// order and at most `MAX_TIME`, gains at most one.
pub open spec fn valid_points(pts: Seq<Breakpoint>) -> bool {
    &&& pts.len() >= 1
    &&& forall|i: int, j: int| 0 <= i <= j < pts.len() ==> pts[i].0 <= pts[j].0
    &&& forall|i: int| 0 <= i < pts.len() ==> #[trigger] pts[i].1 <= ONE
    &&& pts.last().0 <= MAX_TIME
}

/// The number of leading breakpoints whose time is at most `t`; on sorted
/// breakpoints, the first index whose time is later than `t`.
pub open spec fn first_after(pts: Seq<Breakpoint>, t: int) -> nat
    decreases pts.len(),
{
    if pts.len() == 0 {
        0
    } else if pts[0].0 > t {
        0
    } else {
        1 + first_after(pts.drop_first(), t)
    }
}

/// The gain at time `t`: linear between the breakpoints on either side of
/// `t` (the first one later than `t`, and the one before it, or `(0, 0)`
/// where there is none), rounded down; the last gain from the last time on.
pub open spec fn gain_at(pts: Seq<Breakpoint>, t: int) -> int {
    let i = first_after(pts, t) as int;
    if i >= pts.len() {
        pts.last().1 as int
    } else {
        let t1: int = if i == 0 { 0 } else { pts[i - 1].0 as int };
        let g1: int = if i == 0 { 0 } else { pts[i - 1].1 as int };
        let t2 = pts[i].0 as int;
        let g2 = pts[i].1 as int;
        (g1 * (t2 - t) + g2 * (t - t1)) / (t2 - t1)
    }
}

/// A sample scaled by a Q16 gain, rounded down.
pub open spec fn scale(x: int, gain: int) -> int {
    (x * gain) / ONE as int
}

/// The five breakpoints of an attack-decay-sustain-release envelope.
pub open spec fn adsr_points(
    attack_height: u32,
    attack_time: u64,
    decay_time: u64,
    sustain_height: u32,
    sustain_time: u64,
    release_time: u64,
) -> Seq<Breakpoint> {
    let a = attack_time as int;
    let d = a + decay_time;
    let s = d + sustain_time;
    let r = s + release_time;
    seq![
        (0u64, 0u32),
        (a as u64, attack_height),
        (d as u64, sustain_height),
        (s as u64, sustain_height),
        (r as u64, 0u32),
    ]
}

/// An immutable, shareable piecewise-linear gain curve.
pub struct Envelope {
    points: Arc<Vec<Breakpoint>>,
}

/// Relies on `Arc::clone`: the new handle refers to the same breakpoints.
#[verifier::external_body]
fn share(points: &Arc<Vec<Breakpoint>>) -> (r: Arc<Vec<Breakpoint>>)
    ensures
        *r == **points,
{
    Arc::clone(points)
}

impl View for Envelope {
    type V = Seq<Breakpoint>;

    closed spec fn view(&self) -> Seq<Breakpoint> {
        (*self.points)@
    }
}

proof fn lemma_first_after(pts: Seq<Breakpoint>, t: int, i: int)
    requires
        0 <= i <= pts.len(),
        forall|j: int| 0 <= j < i ==> #[trigger] pts[j].0 <= t,
        i < pts.len() ==> pts[i].0 > t,
    ensures
        first_after(pts, t) == i,
    decreases i,
{
    if i > 0 {
        let rest = pts.drop_first();
        assert forall|j: int| 0 <= j < i - 1 implies #[trigger] rest[j].0 <= t by {
            assert(rest[j] == pts[j + 1]);
        }
        if i - 1 < rest.len() {
            assert(rest[i - 1] == pts[i]);
        }
        lemma_first_after(rest, t, i - 1);
    }
}

/// On valid breakpoints, the gain is between zero and one.
proof fn lemma_gain_in_range(pts: Seq<Breakpoint>, t: int)
    requires
        valid_points(pts),
        t >= 0,
    ensures
        0 <= gain_at(pts, t) <= ONE,
{
    let i = first_after(pts, t) as int;
    lemma_first_after_bounds(pts, t);
    if i < pts.len() {
        let t1: int = if i == 0 { 0 } else { pts[i - 1].0 as int };
        let g1: int = if i == 0 { 0 } else { pts[i - 1].1 as int };
        let t2 = pts[i].0 as int;
        let g2 = pts[i].1 as int;
        if i > 0 {
            assert(pts[i - 1].1 <= ONE);
        }
        assert(pts[i].1 <= ONE);
        assert(t1 <= t < t2);
        lemma_blend_in_range(g1, g2, t1, t, t2);
    } else {
        assert(pts[pts.len() - 1].1 <= ONE);
    }
}

proof fn lemma_first_after_bounds(pts: Seq<Breakpoint>, t: int)
    ensures
        first_after(pts, t) <= pts.len(),
        forall|j: int| 0 <= j < first_after(pts, t) ==> #[trigger] pts[j].0 <= t,
        first_after(pts, t) < pts.len() ==> pts[first_after(pts, t) as int].0 > t,
    decreases pts.len(),
{
    if pts.len() > 0 && pts[0].0 <= t {
        let rest = pts.drop_first();
        lemma_first_after_bounds(rest, t);
        assert forall|j: int| 0 <= j < first_after(pts, t) implies #[trigger] pts[j].0 <= t by {
            if j > 0 {
                assert(pts[j] == rest[j - 1]);
            }
        }
        if first_after(pts, t) < pts.len() {
            assert(pts[first_after(pts, t) as int] == rest[first_after(rest, t) as int]);
        }
    }
}

proof fn lemma_blend_in_range(g1: int, g2: int, t1: int, t: int, t2: int)
    requires
        0 <= g1 <= ONE,
        0 <= g2 <= ONE,
        t1 <= t < t2,
    ensures
        0 <= (g1 * (t2 - t) + g2 * (t - t1)) / (t2 - t1) <= ONE,
{
    let num = g1 * (t2 - t) + g2 * (t - t1);
    assert(0 <= num <= ONE * (t2 - t1)) by (nonlinear_arith)
        requires
            0 <= g1 <= ONE,
            0 <= g2 <= ONE,
            t1 <= t < t2,
            num == g1 * (t2 - t) + g2 * (t - t1),
    ;
    vstd::arithmetic::div_mod::lemma_div_is_ordered(0, num, t2 - t1);
    vstd::arithmetic::div_mod::lemma_div_is_ordered(num, ONE * (t2 - t1), t2 - t1);
    vstd::arithmetic::div_mod::lemma_div_multiples_vanish(ONE as int, t2 - t1);
}

impl Envelope {
    /// The envelope's breakpoints are valid.
    pub open spec fn wf(&self) -> bool {
        valid_points(self@)
    }

    /// The time of the last breakpoint.
    pub open spec fn end_time(&self) -> u64 {
        self@.last().0
    }

    /// Builds an envelope from breakpoints; `None` unless they are valid.
    pub fn new(points: Vec<Breakpoint>) -> (r: Option<Envelope>)
        ensures
            r is None <==> !valid_points(points@),
            r matches Some(e) ==> e@ == points@,
    {
        let n = points.len();
        if n == 0 {
            return None;
        }
        let mut i: usize = 0;
        while i < n
            invariant
                n == points@.len(),
                0 <= i <= n,
                forall|a: int, b: int| 0 <= a <= b < i ==> points@[a].0 <= points@[b].0,
                forall|a: int| 0 <= a < i ==> #[trigger] points@[a].1 <= ONE,
            decreases n - i,
        {
            if points[i].1 > 65536 {
                return None;
            }
            if i > 0 && points[i - 1].0 > points[i].0 {
                return None;
            }
            i = i + 1;
        }
        if points[n - 1].0 > MAX_TIME {
            return None;
        }
        Some(Envelope { points: Arc::new(points) })
    }

    /// An attack-decay-sustain-release envelope: silence at time zero, up to
    /// `attack_height` over `attack_time`, down to `sustain_height` over
    /// `decay_time`, held for `sustain_time`, then down to silence over
    /// `release_time`. Times are counted in samples.
    pub fn adsr(
        attack_height: u32,
        attack_time: u64,
        decay_time: u64,
        sustain_height: u32,
        sustain_time: u64,
        release_time: u64,
    ) -> (r: Envelope)
        requires
            attack_height <= ONE,
            sustain_height <= ONE,
            attack_time + decay_time + sustain_time + release_time <= MAX_TIME,
        ensures
            r.wf(),
            r@ == adsr_points(
                attack_height,
                attack_time,
                decay_time,
                sustain_height,
                sustain_time,
                release_time,
            ),
    {
        let a = attack_time;
        let d = a + decay_time;
        let s = d + sustain_time;
        let e = s + release_time;
        let points: Vec<Breakpoint> = vec![
            (0, 0),
            (a, attack_height),
            (d, sustain_height),
            (s, sustain_height),
            (e, 0),
        ];
        let r = Envelope { points: Arc::new(points) };
        assert(r@ =~= adsr_points(
            attack_height,
            attack_time,
            decay_time,
            sustain_height,
            sustain_time,
            release_time,
        ));
        r
    }

    /// A second handle on the same breakpoints.
    pub fn share(&self) -> (r: Envelope)
        ensures
            r@ == self@,
    {
        Envelope { points: share(&self.points) }
    }

    /// The time of the last breakpoint.
    pub fn last_time(&self) -> (r: u64)
        requires
            self.wf(),
        ensures
            r == self.end_time(),
    {
        self.points[self.points.len() - 1].0
    }

    /// The gain at time `t`.
    pub fn gain(&self, t: u64) -> (r: u32)
        requires
            self.wf(),
        ensures
            r as int == gain_at(self@, t as int),
            r <= ONE,
    {
        let pts: &Vec<Breakpoint> = &self.points;
        let n = pts.len();
        let mut i: usize = 0;
        while i < n && pts[i].0 <= t
            invariant
                pts@ == self@,
                n == self@.len(),
                0 <= i <= n,
                forall|j: int| 0 <= j < i ==> #[trigger] self@[j].0 <= t,
            decreases n - i,
        {
            i = i + 1;
        }
        proof {
            lemma_first_after(self@, t as int, i as int);
            lemma_gain_in_range(self@, t as int);
        }
        if i >= n {
            return pts[n - 1].1;
        }
        let (t1, g1): (u64, u32) = if i == 0 {
            (0, 0)
        } else {
            pts[i - 1]
        };
        let (t2, g2) = pts[i];
        proof {
            if i > 0 {
                assert(self@[i - 1].0 <= t);
            }
            assert(g1 as int * (t2 - t) as int <= 0x1_0000_0000_0000_0000_0000) by (nonlinear_arith)
                requires
                    g1 <= 0x1_0000,
                    0 <= (t2 - t) as int <= 0xFFFF_FFFF_FFFF_FFFF,
            ;
            assert(g2 as int * (t - t1) as int <= 0x1_0000_0000_0000_0000_0000) by (nonlinear_arith)
                requires
                    g2 <= 0x1_0000,
                    0 <= (t - t1) as int <= 0xFFFF_FFFF_FFFF_FFFF,
            ;
        }
        let num: u128 = (g1 as u128) * ((t2 - t) as u128) + (g2 as u128) * ((t - t1) as u128);
        (num / ((t2 - t1) as u128)) as u32
    }

    /// Wraps `source` so that each of its samples is scaled by the gain at
    /// the time elapsed since the start; the result ends after the last
    /// breakpoint.
    pub fn source_from<S: SampleStream>(&self, source: S) -> (r: EnvelopeSource<S>)
        requires
            self.wf(),
            source.wf(),
        ensures
            r.wf(),
            r.envelope()@ == self@,
            r.inner() == source,
            r.elapsed() == 0,
    {
        EnvelopeSource { envelope: self.share(), source, time: 0 }
    }
}

/// A stream scaled by an envelope.
pub struct EnvelopeSource<S: SampleStream> {
    envelope: Envelope,
    source: S,
    time: u64,
}

impl<S: SampleStream> EnvelopeSource<S> {
    /// The shaping envelope.
    pub closed spec fn envelope(&self) -> Envelope {
        self.envelope
    }

    /// The stream being shaped.
    pub closed spec fn inner(&self) -> S {
        self.source
    }

    /// Samples produced so far, which is the time on the envelope's clock.
    pub closed spec fn elapsed(&self) -> u64 {
        self.time
    }
}

/// The time left, in samples, from `t` to the last breakpoint at `end`:
/// zero once `t` has reached it.
pub open spec fn time_left(end: u64, t: u64) -> u64 {
    if t > end { 0 } else { (end - t) as u64 }
}

impl<S: SampleStream> SampleStream for EnvelopeSource<S> {
    open spec fn wf(&self) -> bool {
        &&& self.envelope().wf()
        &&& self.inner().wf()
        &&& self.elapsed() <= self.envelope().end_time() + 1
    }

    open spec fn peek(&self) -> Option<i32> {
        if self.elapsed() > self.envelope().end_time() {
            None
        } else {
            match self.inner().peek() {
                None => None,
                Some(x) => Some(
                    scale(x as int, gain_at(self.envelope()@, self.elapsed() as int)) as i32,
                ),
            }
        }
    }

    closed spec fn advance(&self) -> Self {
        if self.elapsed() > self.envelope().end_time() {
            *self
        } else if self.inner().peek() is None {
            EnvelopeSource { source: self.inner().advance(), ..*self }
        } else {
            EnvelopeSource { source: self.inner().advance(), time: (self.time + 1) as u64, ..*self }
        }
    }

    open spec fn rate(&self) -> u32 {
        self.inner().rate()
    }

    open spec fn channel_count(&self) -> u16 {
        self.inner().channel_count()
    }

    open spec fn remaining(&self) -> Option<u64> {
        let left = time_left(self.envelope().end_time(), self.elapsed());
        match self.inner().remaining() {
            None => Some(left),
            Some(n) => Some(if n < left { n } else { left }),
        }
    }

    fn next_sample(&mut self) -> (r: Option<i32>) {
        if self.time > self.envelope.last_time() {
            return None;
        }
        let s = self.source.next_sample();
        match s {
            None => None,
            Some(x) => {
                let g = self.envelope.gain(self.time);
                proof {
                    assert(-0x8000_0000_0000 <= x * g <= 0x8000_0000_0000) by (nonlinear_arith)
                        requires
                            i32::MIN <= x <= i32::MAX,
                            0 <= g <= ONE,
                    ;
                    lemma_scale_fits(x as int, g as int);
                }
                let y = div_floor((x as i128) * (g as i128), 65536);
                self.time = self.time + 1;
                Some(y as i32)
            },
        }
    }

    fn channels(&self) -> (r: u16) {
        self.source.channels()
    }

    fn sample_rate(&self) -> (r: u32) {
        self.source.sample_rate()
    }

    fn remaining_samples(&self) -> (r: Option<u64>) {
        let end = self.envelope.last_time();
        let left: u64 = if self.time > end {
            0
        } else {
            end - self.time
        };
        match self.source.remaining_samples() {
            None => Some(left),
            Some(n) => Some(if n < left { n } else { left }),
        }
    }
}

proof fn lemma_scale_fits(x: int, g: int)
    requires
        i32::MIN <= x <= i32::MAX,
        0 <= g <= ONE,
    ensures
        i32::MIN <= scale(x, g) <= i32::MAX,
{
    let lo = if x < 0 { x } else { 0 };
    let hi = if x < 0 { 0 } else { x };
    assert(lo * ONE <= x * g <= hi * ONE) by (nonlinear_arith)
        requires
            0 <= g <= ONE,
            lo == (if x < 0 { x } else { 0 }),
            hi == (if x < 0 { 0 } else { x }),
    ;
    vstd::arithmetic::div_mod::lemma_div_is_ordered(lo * ONE, x * g, ONE as int);
    vstd::arithmetic::div_mod::lemma_div_is_ordered(x * g, hi * ONE, ONE as int);
    vstd::arithmetic::div_mod::lemma_div_multiples_vanish(lo, ONE as int);
    vstd::arithmetic::div_mod::lemma_div_multiples_vanish(hi, ONE as int);
}

} // verus!

verus! {

/// While the envelope is running and the inner stream keeps yielding, each
/// pull advances the inner stream once and the clock by one sample.
proof fn lemma_running<S: SampleStream>(e: EnvelopeSource<S>, k: nat)
    requires
        e.envelope().end_time() <= MAX_TIME,
        e.elapsed() + k <= e.envelope().end_time() + 1,
        forall|j: nat| j < k ==> #[trigger] pulled(e.inner(), j) is Some,
    ensures
        after(e, k).inner() == after(e.inner(), k),
        after(e, k).elapsed() == e.elapsed() + k,
        after(e, k).envelope() == e.envelope(),
    decreases k,
{
    if k > 0 {
        assert(pulled(e.inner(), 0) is Some);
        let next = e.advance();
        assert forall|j: nat| j < k - 1 implies #[trigger] pulled(next.inner(), j) is Some by {
            assert(pulled(e.inner(), j + 1) is Some);
            assert(after(e.inner(), j + 1) == after(e.inner().advance(), j));
        }
        lemma_running(next, (k - 1) as nat);
        assert(after(e.inner(), k) == after(e.inner().advance(), (k - 1) as nat));
    }
}

/// A rectangular gate: the envelope `adsr(1, 0, 0, 1, hold, 0)` over a
/// stream whose first `hold + 1` pulls all yield full scale lets through
/// exactly `hold` samples of full scale, then one silent sample at the
/// release point, and then ends for good.
pub proof fn lemma_rectangular_gate<S: SampleStream>(hold: u64, e: EnvelopeSource<S>)
    requires
        hold <= MAX_TIME,
        e.envelope()@ == adsr_points(ONE as u32, 0, 0, ONE as u32, hold, 0),
        e.elapsed() == 0,
        forall|k: nat| k <= hold ==> #[trigger] pulled(e.inner(), k) == Some(ONE as i32),
    ensures
        forall|k: nat| k < hold ==> #[trigger] pulled(e, k) == Some(ONE as i32),
        pulled(e, hold as nat) == Some(0i32),
        forall|k: nat| k > hold ==> #[trigger] pulled(e, k) is None,
{
    let pts = e.envelope()@;
    assert(e.envelope().end_time() == hold);
    assert forall|k: nat| k < hold implies #[trigger] pulled(e, k) == Some(ONE as i32) by {
        assert forall|j: nat| j < k implies #[trigger] pulled(e.inner(), j) is Some by {
            assert(pulled(e.inner(), j) == Some(ONE as i32));
        }
        lemma_running(e, k);
        assert(pulled(e.inner(), k) == Some(ONE as i32));
        lemma_first_after(pts, k as int, 3);
        let num = ONE * (hold - k) + ONE * (k - 0);
        assert(num == ONE * hold) by (nonlinear_arith)
            requires
                num == ONE * (hold - k) + ONE * (k - 0),
        ;
        vstd::arithmetic::div_mod::lemma_div_multiples_vanish(ONE as int, hold as int);
        assert(gain_at(pts, k as int) == ONE);
        assert(scale(ONE as int, ONE as int) == ONE) by (nonlinear_arith);
    }
    assert forall|j: nat| j < hold implies #[trigger] pulled(e.inner(), j) is Some by {
        assert(pulled(e.inner(), j) == Some(ONE as i32));
    }
    lemma_running(e, hold as nat);
    assert(pulled(e.inner(), hold as nat) == Some(ONE as i32));
    lemma_first_after(pts, hold as int, 5);
    assert(gain_at(pts, hold as int) == 0);
    assert(scale(ONE as int, 0) == 0);
    assert forall|j: nat| j < hold + 1 implies #[trigger] pulled(e.inner(), j) is Some by {
        assert(pulled(e.inner(), j) == Some(ONE as i32));
    }
    lemma_running(e, (hold + 1) as nat);
    let ended = after(e, (hold + 1) as nat);
    assert(ended.advance() == ended);
    assert forall|k: nat| k > hold implies #[trigger] pulled(e, k) is None by {
        lemma_after_after(e, (hold + 1) as nat, (k - hold - 1) as nat);
        lemma_after_fixed(ended, (k - hold - 1) as nat);
        assert((hold + 1) as nat + (k - hold - 1) as nat == k);
    }
}

} // verus!

verus! {

/// One pull of an envelope stream: once past the last breakpoint it changes
/// nothing; otherwise it pulls the inner stream once, and the clock moves on
/// by one sample only where that pull yielded a sample.
pub proof fn lemma_advance<S: SampleStream>(e: EnvelopeSource<S>)
    requires
        e.wf(),
    ensures
        e.elapsed() > e.envelope().end_time() ==> e.advance() == e,
        e.elapsed() <= e.envelope().end_time() ==> {
            &&& e.advance().envelope() == e.envelope()
            &&& e.advance().inner() == e.inner().advance()
            &&& e.advance().elapsed() == if e.inner().peek() is None {
                e.elapsed() as int
            } else {
                e.elapsed() + 1
            }
        },
{
}

/// An envelope over a stream that never ends, started at time zero, yields
/// exactly `end_time + 1` samples, pull `k` being the inner stream's pull `k`
/// scaled by the gain at time `k`, and then ends for good.
pub proof fn lemma_envelope_length<S: SampleStream>(e: EnvelopeSource<S>)
    requires
        e.wf(),
        e.elapsed() == 0,
        forall|j: nat| #[trigger] pulled(e.inner(), j) is Some,
    ensures
        forall|k: nat|
            k <= e.envelope().end_time() ==> #[trigger] pulled(e, k) == Some(
                scale(
                    pulled(e.inner(), k).unwrap() as int,
                    gain_at(e.envelope()@, k as int),
                ) as i32,
            ),
        forall|k: nat| k > e.envelope().end_time() ==> #[trigger] pulled(e, k) is None,
{
    let end = e.envelope().end_time();
    assert forall|k: nat| k <= end implies #[trigger] pulled(e, k) == Some(
        scale(pulled(e.inner(), k).unwrap() as int, gain_at(e.envelope()@, k as int)) as i32,
    ) by {
        lemma_running(e, k);
        assert(pulled(e.inner(), k) is Some);
    }
    lemma_running(e, (end + 1) as nat);
    let ended = after(e, (end + 1) as nat);
    assert(ended.advance() == ended);
    assert forall|k: nat| k > end implies #[trigger] pulled(e, k) is None by {
        lemma_after_after(e, (end + 1) as nat, (k - end - 1) as nat);
        lemma_after_fixed(ended, (k - end - 1) as nat);
        assert((end + 1) as nat + (k - end - 1) as nat == k);
    }
}

} // verus!
