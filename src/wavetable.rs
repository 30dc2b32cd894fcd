//! Wavetables: one period of a waveform held as samples, read back at any
//! fractional position by linear interpolation.
use std::sync::Arc;
use vstd::prelude::*;
use crate::fixed::{ONE, div_floor};
use crate::stream::{SampleStream, after, pulled};
use crate::waveform::{PeriodicFunction, sawtooth};

verus! {

/// Positions in a table are Q16 numbers of table entries.
pub const POSITION_ONE: u64 = 65536;

/// The longest table that can be built.
pub const MAX_TABLE_LEN: usize = 0xFFFF_FFFF;

/// The length of one pass over a table of `len` entries, in Q16 positions.
pub open spec fn period(len: nat) -> int {
    len * POSITION_ONE
}

/// The table entry that position `pos` starts from.
pub open spec fn left_index(len: nat, pos: int) -> int {
    (pos / POSITION_ONE as int) % (len as int)
}

/// The entry after `left_index`, wrapping round to the first.
pub open spec fn right_index(len: nat, pos: int) -> int {
    (left_index(len, pos) + 1) % (len as int)
}

/// The blend of the two entries around `pos`: `left * w + right * (1 - w)`
/// with `w` the fractional part of `pos`, rounded down to Q16.
///
/// The fractional part weights the left entry, not the right one as in the
/// usual linear interpolation `left * (1 - w) + right * w`: at a whole
/// position the blend reads the entry after it, and between two entries
/// it leans towards the farther one.
pub open spec fn interpolate(data: Seq<i32>, pos: int) -> int {
    let w = pos % POSITION_ONE as int;
    let l = data[left_index(data.len(), pos)] as int;
    let r = data[right_index(data.len(), pos)] as int;
    (l * w + r * (ONE - w)) / ONE as int
}

/// The phase at which entry `i` of a table of `n` entries samples a function:
/// `i / n` of a period, rounded down.
pub open spec fn table_phase(i: int, n: int) -> u32 {
    ((i * 0x1_0000_0000) / n) as u32
}

/// The table step per output sample for `freq` (Q16 hertz), reduced to one
/// pass over the table.
pub open spec fn table_increment(freq: int, len: nat, rate: int) -> int {
    ((freq * len) / rate) % period(len)
}

/// An immutable, shared table holding one period of a waveform.
pub struct WaveTable {
    data: Arc<Vec<i32>>,
}

/// Relies on `Arc::clone`: the new handle refers to the same samples.
#[verifier::external_body]
fn share(data: &Arc<Vec<i32>>) -> (r: Arc<Vec<i32>>)
    ensures
        *r == **data,
{
    Arc::clone(data)
}

impl View for WaveTable {
    type V = Seq<i32>;

    closed spec fn view(&self) -> Seq<i32> {
        (*self.data)@
    }
}

impl WaveTable {
    /// A table has at least one entry and at most `MAX_TABLE_LEN`.
    pub open spec fn wf(&self) -> bool {
        1 <= self@.len() <= MAX_TABLE_LEN
    }

    /// Builds a table from literal samples; `None` when there are none.
    pub fn new(data: Vec<i32>) -> (r: Option<WaveTable>)
        requires
            data@.len() <= MAX_TABLE_LEN,
        ensures
            r is None <==> data@.len() == 0,
            r matches Some(t) ==> t.wf() && t@ == data@,
    {
        if data.len() == 0 {
            None
        } else {
            Some(WaveTable { data: Arc::new(data) })
        }
    }

    /// Samples `function` at the `sample_num` evenly spaced phases
    /// `i / sample_num`; `None` when `sample_num` is zero.
    pub fn from_function<F: PeriodicFunction>(sample_num: u32, function: F) -> (r: Option<WaveTable>)
        ensures
            r is None <==> sample_num == 0,
            r matches Some(t) ==> {
                &&& t.wf()
                &&& t@.len() == sample_num
                &&& forall|i: int|
                    0 <= i < sample_num ==> #[trigger] t@[i] as int == function.value(
                        table_phase(i, sample_num as int),
                    )
            },
    {
        if sample_num == 0 {
            return None;
        }
        let mut data: Vec<i32> = Vec::new();
        let mut i: u32 = 0;
        while i < sample_num
            invariant
                i <= sample_num,
                data@.len() == i,
                forall|j: int|
                    0 <= j < i ==> #[trigger] data@[j] as int == function.value(
                        table_phase(j, sample_num as int),
                    ),
            decreases sample_num - i,
        {
            proof {
                assert((i as int) * 0x1_0000_0000 < (sample_num as int) * 0x1_0000_0000)
                    by (nonlinear_arith)
                    requires
                        i < sample_num,
                ;
                vstd::arithmetic::div_mod::lemma_div_by_multiple_is_strongly_ordered(
                    i as int * 0x1_0000_0000,
                    sample_num as int * 0x1_0000_0000,
                    0x1_0000_0000,
                    sample_num as int,
                );
            }
            let phase: u64 = ((i as u64) * 0x1_0000_0000) / (sample_num as u64);
            proof {
                vstd::arithmetic::div_mod::lemma_div_is_ordered(
                    i as int * 0x1_0000_0000,
                    sample_num as int * 0x1_0000_0000,
                    sample_num as int,
                );
            }
            let v = function.evaluate(phase as u32);
            data.push(v);
            i = i + 1;
        }
        Some(WaveTable { data: Arc::new(data) })
    }

    /// A table of `sample_num` random entries drawn evenly from `[-1, 1)`;
    /// `None` when `sample_num` is zero.
    pub fn noise(sample_num: u32) -> (r: Option<WaveTable>)
        ensures
            r is None <==> sample_num == 0,
            r matches Some(t) ==> {
                &&& t.wf()
                &&& t@.len() == sample_num
                &&& forall|i: int| 0 <= i < sample_num ==> -ONE <= #[trigger] t@[i] < ONE
            },
    {
        if sample_num == 0 {
            return None;
        }
        let mut data: Vec<i32> = Vec::new();
        let mut i: u32 = 0;
        while i < sample_num
            invariant
                i <= sample_num,
                data@.len() == i,
                forall|j: int| 0 <= j < i ==> -ONE <= #[trigger] data@[j] < ONE,
            decreases sample_num - i,
        {
            let phase = random_phase();
            let v = sawtooth(phase);
            assert(v < ONE) by {
                assert(phase as int / 32768 < 131072);
            }
            data.push(v);
            i = i + 1;
        }
        Some(WaveTable { data: Arc::new(data) })
    }

    /// A second handle on the same samples.
    pub fn share(&self) -> (r: WaveTable)
        ensures
            r@ == self@,
    {
        WaveTable { data: share(&self.data) }
    }

    /// Reads the table at Q16 position `position`, wrapping round past the
    /// last entry, and blending the two neighbouring entries linearly.
    pub fn sample(&self, position: u64) -> (r: i32)
        requires
            self.wf(),
        ensures
            r as int == interpolate(self@, position as int),
    {
        let len = self.data.len();
        let left: usize = ((position / POSITION_ONE) % (len as u64)) as usize;
        let right: usize = (left + 1) % len;
        let w: i128 = (position % POSITION_ONE) as i128;
        let l: i128 = self.data[left] as i128;
        let rv: i128 = self.data[right] as i128;
        proof {
            assert(0 <= w < 65536);
            lemma_blend_bounds(rv as int, l as int, w as int);
        }
        let blended: i128 = l * w + rv * (65536 - w);
        let q = div_floor(blended, 65536);
        proof {
            assert(blended == rv * (65536 - w) + l * w);
            lemma_floor_between(blended as int, rv as int, l as int, w as int);
        }
        q as i32
    }

    /// The samples of the table.
    pub fn data(&self) -> (r: &Vec<i32>)
        ensures
            r@ == self@,
    {
        &self.data
    }

    /// A stream that plays the table at `sample_rate`, starting at its first
    /// entry and stepping one entry per sample until a frequency is set.
    pub fn source(&self, sample_rate: u32) -> (r: WaveTableSource)
        requires
            self.wf(),
            sample_rate > 0,
        ensures
            r.wf(),
            r.table()@ == self@,
            r.position() == 0,
            r.increment() as int == POSITION_ONE as int % period(self@.len()),
            r.rate() == sample_rate,
    {
        let table = self.share();
        let period: u64 = (self.data.len() as u64) * POSITION_ONE;
        WaveTableSource { table, index: 0, increment: POSITION_ONE % period, sample_rate }
    }
}

/// Relies on `rand::random::<u32>`: some `u32`, drawn uniformly. It panics
/// only where the operating system cannot seed the thread-local generator.
#[verifier::external_body]
fn random_phase() -> (r: u32) {
    rand::random::<u32>()
}

proof fn lemma_blend_bounds(l: int, r: int, w: int)
    requires
        i32::MIN <= l <= i32::MAX,
        i32::MIN <= r <= i32::MAX,
        0 <= w < 65536,
    ensures
        -0x8000_0000_0000 <= l * (65536 - w) <= 0x8000_0000_0000,
        -0x8000_0000_0000 <= r * w <= 0x8000_0000_0000,
{
    assert(-0x8000_0000_0000 <= l * (65536 - w) <= 0x8000_0000_0000) by (nonlinear_arith)
        requires
            i32::MIN <= l <= i32::MAX,
            0 <= w < 65536,
    ;
    assert(-0x8000_0000_0000 <= r * w <= 0x8000_0000_0000) by (nonlinear_arith)
        requires
            i32::MIN <= r <= i32::MAX,
            0 <= w < 65536,
    ;
}

proof fn lemma_floor_between(b: int, l: int, r: int, w: int)
    requires
        i32::MIN <= l <= i32::MAX,
        i32::MIN <= r <= i32::MAX,
        0 <= w < 65536,
        b == l * (65536 - w) + r * w,
    ensures
        i32::MIN <= b / 65536 <= i32::MAX,
{
    let lo = if l < r { l } else { r };
    let hi = if l < r { r } else { l };
    assert(lo * 65536 <= b <= hi * 65536) by (nonlinear_arith)
        requires
            0 <= w < 65536,
            b == l * (65536 - w) + r * w,
            lo <= l,
            lo <= r,
            l <= hi,
            r <= hi,
    ;
    vstd::arithmetic::div_mod::lemma_div_is_ordered(lo * 65536, b, 65536);
    vstd::arithmetic::div_mod::lemma_div_is_ordered(b, hi * 65536, 65536);
    vstd::arithmetic::div_mod::lemma_div_multiples_vanish(lo, 65536);
    vstd::arithmetic::div_mod::lemma_div_multiples_vanish(hi, 65536);
}

/// A stream that plays a wavetable at an arbitrary frequency.
pub struct WaveTableSource {
    table: WaveTable,
    index: u64,
    increment: u64,
    sample_rate: u32,
}

impl WaveTableSource {
    /// The table being played.
    pub closed spec fn table(&self) -> WaveTable {
        self.table
    }

    /// The current read position, in Q16 table entries.
    pub closed spec fn position(&self) -> u64 {
        self.index
    }

    /// The step per sample, in Q16 table entries.
    pub closed spec fn increment(&self) -> u64 {
        self.increment
    }

    /// The stream after `set_frequency(freq)`.
    pub closed spec fn retune(&self, freq: u64) -> Self {
        WaveTableSource {
            increment: table_increment(freq as int, self.table@.len(), self.sample_rate as int) as u64,
            ..*self
        }
    }

    /// The current read position, in Q16 table entries.
    pub fn index(&self) -> (r: u64)
        ensures
            r == self.position(),
    {
        self.index
    }

    /// Retunes the stream to `freq` (Q16 hertz) without moving its position,
    /// so that the waveform continues without a jump.
    pub fn set_frequency(&mut self, freq: u64)
        requires
            old(self).wf(),
        ensures
            *final(self) == old(self).retune(freq),
            final(self).wf(),
            final(self).table() == old(self).table(),
            final(self).position() == old(self).position(),
            final(self).rate() == old(self).rate(),
            final(self).increment() as int == table_increment(
                freq as int,
                old(self).table()@.len(),
                old(self).rate() as int,
            ),
    {
        let len = self.table.data.len() as u128;
        let period: u128 = len * (POSITION_ONE as u128);
        proof {
            assert(freq as int * len as int <= u64::MAX as int * u32::MAX as int)
                by (nonlinear_arith)
                requires
                    freq <= u64::MAX,
                    len <= u32::MAX,
            ;
        }
        let step: u128 = ((freq as u128) * len) / (self.sample_rate as u128);
        self.increment = (step % period) as u64;
    }

    /// `set_frequency`, in builder form.
    pub fn with_frequency(self, freq: u64) -> (r: Self)
        requires
            self.wf(),
        ensures
            r.wf(),
            r.table() == self.table(),
            r.position() == self.position(),
            r.rate() == self.rate(),
            r.increment() as int == table_increment(
                freq as int,
                self.table()@.len(),
                self.rate() as int,
            ),
    {
        let mut s = self;
        s.set_frequency(freq);
        s
    }
}

impl SampleStream for WaveTableSource {
    open spec fn wf(&self) -> bool {
        &&& self.table().wf()
        &&& self.position() < period(self.table()@.len())
        &&& self.increment() < period(self.table()@.len())
        &&& self.rate() > 0
    }

    open spec fn peek(&self) -> Option<i32> {
        Some(interpolate(self.table()@, self.position() as int) as i32)
    }

    closed spec fn advance(&self) -> Self {
        WaveTableSource {
            index: ((self.index + self.increment) % period(self.table@.len())) as u64,
            ..*self
        }
    }

    closed spec fn rate(&self) -> u32 {
        self.sample_rate
    }

    open spec fn channel_count(&self) -> u16 {
        1
    }

    open spec fn remaining(&self) -> Option<u64> {
        None
    }

    fn next_sample(&mut self) -> (r: Option<i32>) {
        let v = self.table.sample(self.index);
        let period: u64 = (self.table.data.len() as u64) * POSITION_ONE;
        self.index = (self.index + self.increment) % period;
        Some(v)
    }

    fn channels(&self) -> (r: u16) {
        1
    }

    fn sample_rate(&self) -> (r: u32) {
        self.sample_rate
    }

    fn remaining_samples(&self) -> (r: Option<u64>) {
        None
    }
}

} // verus!

verus! {

/// Reading a table one whole pass further on gives the same value.
pub proof fn lemma_sample_periodic(data: Seq<i32>, pos: int)
    requires
        data.len() >= 1,
        pos >= 0,
    ensures
        interpolate(data, pos + period(data.len())) == interpolate(data, pos),
{
    let n = data.len() as int;
    let later = pos + period(data.len());
    assert(later == pos + n * 65536);
    vstd::arithmetic::div_mod::lemma_hoist_over_denominator(pos, n, 65536);
    vstd::arithmetic::div_mod::lemma_mod_multiples_vanish(n, pos, 65536);
    assert(later == 65536 * n + pos) by (nonlinear_arith)
        requires
            later == pos + n * 65536,
    ;
    vstd::arithmetic::div_mod::lemma_mod_add_multiples_vanish(pos / 65536, n);
    assert(left_index(data.len(), later) == left_index(data.len(), pos));
}

/// A table sampled from a periodic function starts, at position zero, at
/// the function's value one entry on (phase `1 / n`, which for a smooth
/// function and a long table is close to its value at phase zero, and is
/// that value for a table of one entry), and reading it at its length wraps
/// round to exactly where it started.
pub proof fn lemma_table_wraps<F: PeriodicFunction>(function: F, table: WaveTable)
    requires
        table.wf(),
        forall|i: int|
            0 <= i < table@.len() ==> #[trigger] table@[i] as int == function.value(
                table_phase(i, table@.len() as int),
            ),
    ensures
        interpolate(table@, 0) == function.value(
            table_phase(1int % (table@.len() as int), table@.len() as int),
        ),
        table@.len() == 1 ==> interpolate(table@, 0) == function.value(0),
        interpolate(table@, period(table@.len())) == interpolate(table@, 0),
{
    let data = table@;
    let n = data.len() as int;
    assert(0int / 65536 == 0);
    vstd::arithmetic::div_mod::lemma_small_mod(0, data.len());
    assert(left_index(data.len(), 0) == 0);
    let r = right_index(data.len(), 0);
    assert(r == 1int % n);
    vstd::arithmetic::div_mod::lemma_mod_bound(1, n);
    assert(data[r] as int == function.value(table_phase(r, n)));
    assert((data[0] * 0 + data[r] * (ONE - 0)) == data[r] * ONE) by (nonlinear_arith);
    vstd::arithmetic::div_mod::lemma_div_multiples_vanish(data[r] as int, ONE as int);
    if n == 1 {
        assert(table_phase(0, 1) == 0);
    }
    lemma_sample_periodic(data, 0);
}

/// Pulls and retunings applied in turn: `None` pulls a sample, `Some(f)`
/// sets the frequency to `f`.
pub open spec fn run(s: WaveTableSource, ops: Seq<Option<u64>>) -> WaveTableSource
    decreases ops.len(),
{
    if ops.len() == 0 {
        s
    } else {
        let next = match ops[0] {
            None => s.advance(),
            Some(f) => s.retune(f),
        };
        run(next, ops.drop_first())
    }
}

/// Whatever pulls and frequency changes a wavetable stream goes through,
/// its position stays within one pass over its table, and its table and
/// rate stay the same; a frequency change leaves the position where it was.
pub proof fn lemma_position_in_range(s: WaveTableSource, ops: Seq<Option<u64>>)
    requires
        s.wf(),
    ensures
        run(s, ops).wf(),
        run(s, ops).position() < period(s.table()@.len()),
        run(s, ops).table() == s.table(),
        run(s, ops).rate() == s.rate(),
        forall|f: u64| #[trigger] s.retune(f).position() == s.position(),
    decreases ops.len(),
{
    vstd::arithmetic::div_mod::lemma_mod_bound(
        (s.index + s.increment) as int,
        period(s.table@.len()),
    );
    assert forall|f: u64| #[trigger] s.retune(f).wf() by {
        let len = s.table@.len();
        vstd::arithmetic::div_mod::lemma_mod_bound(
            (f as int * len) / s.sample_rate as int,
            period(len),
        );
    }
    if ops.len() > 0 {
        let next = match ops[0] {
            None => s.advance(),
            Some(f) => s.retune(f),
        };
        lemma_position_in_range(next, ops.drop_first());
    }
}

/// One pull moves a wavetable stream's position on by its increment,
/// wrapping round after one pass over the table, and changes nothing else.
pub proof fn lemma_advance(s: WaveTableSource)
    requires
        s.wf(),
    ensures
        s.advance().table() == s.table(),
        s.advance().position() as int == (s.position() + s.increment()) % period(
            s.table()@.len(),
        ),
        s.advance().increment() == s.increment(),
        s.advance().rate() == s.rate(),
        s.advance().wf(),
{
    vstd::arithmetic::div_mod::lemma_mod_bound(
        (s.index + s.increment) as int,
        period(s.table@.len()),
    );
}

/// After `k` pulls a wavetable stream's position is `k` increments on from
/// where it was, wrapped round to one pass over the table.
pub proof fn lemma_pulls_position(s: WaveTableSource, k: nat)
    requires
        s.wf(),
    ensures
        after(s, k).wf(),
        after(s, k).table() == s.table(),
        after(s, k).increment() == s.increment(),
        after(s, k).rate() == s.rate(),
        after(s, k).position() as int == (s.position() + k * s.increment()) % period(
            s.table()@.len(),
        ),
    decreases k,
{
    let p = period(s.table()@.len());
    if k == 0 {
        assert(k * s.increment() == 0);
        vstd::arithmetic::div_mod::lemma_small_mod(s.position() as nat, p as nat);
    } else {
        lemma_advance(s);
        let next = s.advance();
        lemma_pulls_position(next, (k - 1) as nat);
        let a = s.position() + s.increment();
        let b = (k - 1) * s.increment();
        vstd::arithmetic::div_mod::lemma_add_mod_noop_right(b, a, p);
        assert(next.position() as int == a % p);
        assert((next.position() + b) % p == (b + a) % p);
        assert(a + b == s.position() + k * s.increment()) by (nonlinear_arith)
            requires
                a == s.position() + s.increment(),
                b == (k - 1) * s.increment(),
                k >= 1,
        ;
    }
}

/// Two wavetable streams over tables with the same samples, at the same
/// position and with the same increment, yield the same samples on every
/// pull, however their pulls interleave.
pub proof fn lemma_same_samples(s1: WaveTableSource, s2: WaveTableSource, k: nat)
    requires
        s1.wf(),
        s2.wf(),
        s1.table()@ == s2.table()@,
        s1.position() == s2.position(),
        s1.increment() == s2.increment(),
    ensures
        pulled(s1, k) == pulled(s2, k),
    decreases k,
{
    if k > 0 {
        lemma_advance(s1);
        lemma_advance(s2);
        lemma_same_samples(s1.advance(), s2.advance(), (k - 1) as nat);
    }
}

} // verus!
