use wavesynth::oscillator::{SawtoothWave, SquareWave};
use wavesynth::schedule::{schedule, Note, Placement};
use wavesynth::{SampleStream, Wave, Waveform};

const ONE: i32 = 65536;

fn note(start: u64, length: u64) -> Note {
    Note { start, length, key: 69, wave: Wave::Sine }
}

fn placed(note: usize, voice: usize, pause: u64) -> Placement {
    Placement { note, voice, pause }
}

#[test]
fn notes_take_the_first_free_voice() {
    let notes = vec![note(0, 10), note(5, 10), note(10, 5), note(15, 1)];
    assert_eq!(
        schedule(&notes, 2),
        vec![placed(0, 0, 0), placed(1, 1, 5), placed(2, 0, 0), placed(3, 0, 0)]
    );
}

#[test]
fn notes_are_played_in_order_of_start_then_length() {
    let notes = vec![note(20, 1), note(0, 5), note(0, 3), note(3, 2)];
    assert_eq!(
        schedule(&notes, 4),
        vec![placed(2, 0, 0), placed(1, 1, 0), placed(3, 0, 0), placed(0, 0, 15)]
    );
}

#[test]
fn notes_without_a_free_voice_are_left_out() {
    let notes = vec![note(0, 10), note(1, 10), note(2, 10), note(11, 1)];
    assert_eq!(schedule(&notes, 2), vec![placed(0, 0, 0), placed(1, 1, 1), placed(3, 0, 1)]);
    assert_eq!(schedule(&notes, 0), vec![]);
    assert_eq!(schedule(&vec![], 3), vec![]);
}

#[test]
fn waves_map_to_functions() {
    assert_eq!(Wave::Sine.waveform(), None);
    assert_eq!(Wave::Square.waveform(), Some(Waveform::Square));
    assert_eq!(Wave::Triangle.waveform(), Some(Waveform::Triangle));
    assert_eq!(Wave::Sawtooth.waveform(), Some(Waveform::Sawtooth));
    assert_eq!(Wave::Pulse.waveform(), Some(Waveform::Pulse { width: 0x4000_0000 }));
}

#[test]
fn square_oscillator() {
    let mut s = SquareWave::new(8, 1 << 16);
    let out: Vec<i32> = (0..9).map(|_| s.next_sample().unwrap()).collect();
    assert_eq!(out, vec![ONE, ONE, ONE, ONE, -ONE, -ONE, -ONE, -ONE, ONE]);
    assert_eq!(s.sample_rate(), 8);
    assert_eq!(s.channels(), 1);
    assert_eq!(s.remaining_samples(), None);
}

#[test]
fn triangle_shaped_oscillator() {
    let mut s = SawtoothWave::new(8, 1 << 16);
    let out: Vec<i32> = (0..9).map(|_| s.next_sample().unwrap()).collect();
    assert_eq!(
        out,
        vec![-ONE, -ONE / 2, 0, ONE / 2, ONE, ONE / 2, 0, -ONE / 2, -ONE]
    );
}

#[test]
fn oscillator_keeps_phase_over_a_long_run() {
    // 3 Hz at 4 samples per second: the counter wraps after 4 * 65536 samples
    let mut s = SquareWave::new(4, 3 << 16);
    let first: Vec<i32> = (0..8).map(|_| s.next_sample().unwrap()).collect();
    for _ in 8..(4 * 65536) {
        s.next_sample();
    }
    let again: Vec<i32> = (0..8).map(|_| s.next_sample().unwrap()).collect();
    assert_eq!(first, again);
    assert_eq!(first, vec![ONE, -ONE, -ONE, ONE, ONE, -ONE, -ONE, ONE]);
}
