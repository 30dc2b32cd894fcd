//! Spreading notes over a fixed number of voices, each of which plays one
//! note at a time.
use vstd::prelude::*;
use crate::Wave;
use crate::waveform::Waveform;

verus! {

/// A note: when it starts and how long it lasts, both in samples, its key
/// number, and the wave it is played with.
#[derive(Clone, Copy, Debug, PartialEq, Eq, Structural)]
pub struct Note {
    pub start: u64,
    pub length: u64,
    pub key: u8,
    pub wave: Wave,
}

/// Where a note is played: the index of the note, the voice, and the
/// silence that the voice plays between its previous note and this one.
#[derive(Clone, Copy, Debug, PartialEq, Eq, Structural)]
pub struct Placement {
    pub note: usize,
    pub voice: usize,
    pub pause: u64,
}

/// A note's place in the playing order: start, then length, then index.
pub type NoteKey = (u64, u64, usize);

/// `a` comes no later than `b` in the playing order.
pub open spec fn key_le(a: NoteKey, b: NoteKey) -> bool {
    a.0 < b.0 || (a.0 == b.0 && (a.1 < b.1 || (a.1 == b.1 && a.2 <= b.2)))
}

/// The keys are in playing order.
pub open spec fn keys_sorted(keys: Seq<NoteKey>) -> bool {
    forall|i: int, j: int| 0 <= i < j < keys.len() ==> key_le(keys[i], keys[j])
}

/// The key of each note, in the order given.
pub open spec fn note_keys(notes: Seq<Note>) -> Seq<NoteKey> {
    Seq::new(notes.len(), |i: int| (notes[i].start, notes[i].length, i as usize))
}

/// The number of leading voices still busy at `start`: the first free voice,
/// or the number of voices where none is free.
pub open spec fn first_free(ends: Seq<u128>, start: u64) -> nat
    decreases ends.len(),
{
    if ends.len() == 0 {
        0
    } else if ends[0] > start {
        1 + first_free(ends.drop_first(), start)
    } else {
        0
    }
}

/// Places the notes in `keys` in order, each on the first voice that is
/// free when it starts, given the times at which the voices fall free; a
/// note that finds no free voice is left out.
pub open spec fn plan(keys: Seq<NoteKey>, ends: Seq<u128>) -> Seq<Placement>
    decreases keys.len(),
{
    if keys.len() == 0 {
        seq![]
    } else {
        let (start, length, note) = keys[0];
        let v = first_free(ends, start) as int;
        if v < ends.len() {
            seq![Placement { note, voice: v as usize, pause: (start - ends[v]) as u64 }] + plan(
                keys.drop_first(),
                ends.update(v, (start + length) as u128),
            )
        } else {
            plan(keys.drop_first(), ends)
        }
    }
}

/// Relies on `slice::sort`: the result holds the same keys, in ascending
/// order, and tuples of integers compare lexicographically.
#[verifier::external_body]
fn sort_keys(keys: &mut Vec<NoteKey>)
    ensures
        final(keys)@.to_multiset() == old(keys)@.to_multiset(),
        keys_sorted(final(keys)@),
{
    keys.sort();
}

proof fn lemma_first_free(ends: Seq<u128>, start: u64, v: int)
    requires
        0 <= v <= ends.len(),
        forall|j: int| 0 <= j < v ==> #[trigger] ends[j] > start,
        v < ends.len() ==> ends[v] <= start,
    ensures
        first_free(ends, start) == v,
    decreases v,
{
    if v > 0 {
        let rest = ends.drop_first();
        assert forall|j: int| 0 <= j < v - 1 implies #[trigger] rest[j] > start by {
            assert(rest[j] == ends[j + 1]);
        }
        if v - 1 < rest.len() {
            assert(rest[v - 1] == ends[v]);
        }
        lemma_first_free(rest, start, v - 1);
    }
}

/// Spreads `notes` over `voices` voices: the notes are taken in playing
/// order (by start, then length, then position in `notes`), and each goes to
/// the first voice that has finished its previous note by the time this one
/// starts. Notes that find every voice busy are left out.
pub fn schedule(notes: &Vec<Note>, voices: usize) -> (r: Vec<Placement>)
    ensures
        exists|keys: Seq<NoteKey>|
            {
                &&& keys_sorted(keys)
                &&& keys.to_multiset() == note_keys(notes@).to_multiset()
                &&& r@ == plan(keys, Seq::new(voices as nat, |i: int| 0u128))
            },
{
    let mut keys: Vec<NoteKey> = Vec::new();
    let mut i: usize = 0;
    while i < notes.len()
        invariant
            i <= notes@.len(),
            keys@ == note_keys(notes@).subrange(0, i as int),
        decreases notes@.len() - i,
    {
        keys.push((notes[i].start, notes[i].length, i));
        i = i + 1;
        assert(keys@ =~= note_keys(notes@).subrange(0, i as int));
    }
    assert(keys@ =~= note_keys(notes@));
    sort_keys(&mut keys);
    let mut ends: Vec<u128> = Vec::new();
    let mut v: usize = 0;
    while v < voices
        invariant
            v <= voices,
            ends@ == Seq::new(v as nat, |i: int| 0u128),
        decreases voices - v,
    {
        ends.push(0);
        v = v + 1;
        assert(ends@ =~= Seq::new(v as nat, |i: int| 0u128));
    }
    let ghost all = keys@;
    let ghost start_ends = ends@;
    let mut out: Vec<Placement> = Vec::new();
    let mut k: usize = 0;
    assert(all.subrange(0, all.len() as int) =~= all);
    assert(out@ + plan(all, start_ends) =~= plan(all, start_ends));
    while k < keys.len()
        invariant
            keys@ == all,
            k <= all.len(),
            ends@.len() == voices,
            forall|j: int| 0 <= j < voices ==> #[trigger] ends@[j] <= u64::MAX as int * 2,
            plan(all, start_ends) == out@ + plan(all.subrange(k as int, all.len() as int), ends@),
        decreases all.len() - k,
    {
        let (start, length, note) = keys[k];
        let ghost rest = all.subrange(k as int, all.len() as int);
        assert(rest[0] == (start, length, note));
        assert(rest.drop_first() =~= all.subrange(k + 1, all.len() as int));
        let mut f: usize = 0;
        while f < voices && ends[f] > start as u128
            invariant
                ends@.len() == voices,
                f <= voices,
                forall|j: int| 0 <= j < f ==> #[trigger] ends@[j] > start,
            decreases voices - f,
        {
            f = f + 1;
        }
        proof {
            lemma_first_free(ends@, start, f as int);
        }
        let ghost old_out = out@;
        let ghost old_ends = ends@;
        if f < voices {
            let pause: u64 = (start as u128 - ends[f]) as u64;
            ends.set(f, start as u128 + length as u128);
            let p = Placement { note, voice: f, pause };
            out.push(p);
            proof {
                assert(ends@ == old_ends.update(f as int, (start + length) as u128));
                vstd::seq_lib::lemma_concat_associative(
                    old_out,
                    seq![p],
                    plan(rest.drop_first(), ends@),
                );
                assert(out@ =~= old_out + seq![p]);
            }
        }
        k = k + 1;
    }
    assert(all.subrange(all.len() as int, all.len() as int) =~= Seq::<NoteKey>::empty());
    assert(out@ + plan(Seq::<NoteKey>::empty(), ends@) =~= out@);
    out
}

impl Wave {
    /// The periodic function that plays this wave, where one is built in;
    /// a pulse is high for the first quarter of each period. A sine has no
    /// built-in function: it is played from a table.
    pub fn waveform(self) -> (r: Option<Waveform>)
        ensures
            r == match self {
                Wave::Sine => None,
                Wave::Triangle => Some(Waveform::Triangle),
                Wave::Square => Some(Waveform::Square),
                Wave::Sawtooth => Some(Waveform::Sawtooth),
                Wave::Pulse => Some(Waveform::Pulse { width: 0x4000_0000 }),
            },
    {
        match self {
            Wave::Sine => None,
            Wave::Triangle => Some(Waveform::Triangle),
            Wave::Square => Some(Waveform::Square),
            Wave::Sawtooth => Some(Waveform::Sawtooth),
            Wave::Pulse => Some(Waveform::Pulse { width: 0x4000_0000 }),
        }
    }
}

} // verus!
