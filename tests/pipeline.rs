use wavesynth::envelope::MAX_TIME;
use wavesynth::waveform::{pulse, sawtooth, square, triangle};
use wavesynth::{
    dot_prod_duration, dot_prod_samples, take_samples, BiQuad, Envelope, PeriodicFunction,
    SampleStream, SourceFunctionExt, WaveTable, Waveform,
};

const ONE: i32 = 65536;

fn hz(f: u64) -> u64 {
    f << 16
}

fn q16(v: f64) -> i32 {
    (v * 65536.0).round() as i32
}

fn sine_table(n: usize, phase_offset: f64) -> WaveTable {
    let data: Vec<i32> = (0..n)
        .map(|i| q16((std::f64::consts::TAU * (i as f64 / n as f64 + phase_offset)).sin()))
        .collect();
    WaveTable::new(data).unwrap()
}

fn constant_table(v: i32) -> WaveTable {
    WaveTable::new(vec![v]).unwrap()
}

fn pull_all<S: SampleStream>(s: &mut S, limit: usize) -> Vec<i32> {
    let mut out = Vec::new();
    while out.len() < limit {
        match s.next_sample() {
            Some(v) => out.push(v),
            None => break,
        }
    }
    out
}

#[test]
fn waveform_values() {
    assert_eq!(square(0), ONE);
    assert_eq!(square(0x8000_0000), -ONE);
    assert_eq!(triangle(0), -ONE);
    assert_eq!(triangle(0x4000_0000), 0);
    assert_eq!(triangle(0x8000_0000), ONE);
    assert_eq!(triangle(0xC000_0000), 0);
    assert_eq!(sawtooth(0), -ONE);
    assert_eq!(sawtooth(0x8000_0000), 0);
    assert_eq!(sawtooth(0xFFFF_FFFF), ONE - 1);
    assert_eq!(pulse(0x4000_0000, 0x3FFF_FFFF), ONE);
    assert_eq!(pulse(0x4000_0000, 0x4000_0000), -ONE);
    assert_eq!(Waveform::pulse(0x4000_0000).evaluate(0x5000_0000), -ONE);
    assert_eq!(Waveform::Triangle.evaluate(0x4000_0000), 0);
}

#[test]
fn table_from_function_samples_evenly() {
    let t = WaveTable::from_function(4, Waveform::Sawtooth).unwrap();
    assert_eq!(t.data(), &vec![-ONE, -ONE / 2, 0, ONE / 2]);
    let t2 = Waveform::Square.wavetable(4).unwrap();
    assert_eq!(t2.data(), &vec![ONE, ONE, -ONE, -ONE]);
}

#[test]
fn table_wraps_round_to_its_start() {
    let n: u32 = 1024;
    let t = WaveTable::from_function(n, Waveform::Sawtooth).unwrap();
    // at a whole position the blend reads the entry after it
    assert_eq!(t.sample(0), t.data()[1]);
    assert_eq!(t.sample(0), Waveform::Sawtooth.evaluate(1 << 22));
    assert_eq!(t.sample((n as u64) << 16), t.sample(0));
    let one = WaveTable::from_function(1, Waveform::Sawtooth).unwrap();
    assert_eq!(one.sample(0), Waveform::Sawtooth.evaluate(0));
    let s = sine_table(1024, 0.0);
    assert!(s.sample(0).abs() <= 403);
    assert_eq!(s.sample(1024 << 16), s.sample(0));
    assert_eq!(s.sample((1024 << 16) + 12345), s.sample(12345));
}

#[test]
fn table_interpolates_linearly() {
    // left * w + right * (1 - w), with w the fractional part
    let t = WaveTable::new(vec![0, ONE]).unwrap();
    assert_eq!(t.sample(0), ONE);
    assert_eq!(t.sample(1 << 16), 0);
    assert_eq!(t.sample(1 << 15), ONE / 2);
    assert_eq!(t.sample(1 << 14), 3 * ONE / 4);
    // between the last entry and the first again
    assert_eq!(t.sample((1 << 16) + (1 << 14)), ONE / 4);
    let neg = WaveTable::new(vec![-3, 0]).unwrap();
    assert_eq!(neg.sample(1 << 15), -2);
}

#[test]
fn empty_tables_are_refused() {
    assert!(WaveTable::new(vec![]).is_none());
    assert!(WaveTable::from_function(0, Waveform::Square).is_none());
    assert!(WaveTable::noise(0).is_none());
}

#[test]
fn noise_table_is_in_range_and_varies() {
    let t = WaveTable::noise(1024).unwrap();
    assert_eq!(t.data().len(), 1024);
    assert!(t.data().iter().all(|&v| (-ONE..ONE).contains(&v)));
    let first = t.data()[0];
    assert!(t.data().iter().any(|&v| v != first));
}

#[test]
fn shared_table_keeps_the_samples() {
    let t = WaveTable::new(vec![1, 2, 3]).unwrap();
    let u = t.share();
    assert_eq!(u.data(), &vec![1, 2, 3]);
    let e = Envelope::adsr(ONE as u32, 1, 2, 100, 3, 4);
    let f = e.share();
    assert_eq!(f.gain(1), ONE as u32);
    assert_eq!(f.last_time(), 10);
}

#[test]
fn table_stream_position_stays_in_range() {
    let t = sine_table(64, 0.0);
    let period: u64 = 64 << 16;
    let mut s = t.source(44100).with_frequency(hz(3000));
    for i in 0..5000u64 {
        assert!(s.index() < period);
        s.next_sample();
        if i % 997 == 0 {
            let before = s.index();
            s.set_frequency(hz(100 + i));
            assert_eq!(s.index(), before);
        }
    }
    s.set_frequency(u64::MAX);
    for _ in 0..100 {
        s.next_sample();
        assert!(s.index() < period);
    }
}

#[test]
fn table_stream_steps_by_frequency() {
    let t = WaveTable::new(vec![0, 10, 20, 30]).unwrap();
    // a quarter of the table per sample: one entry per sample
    let mut s = t.source(4).with_frequency(hz(1));
    assert_eq!(pull_all(&mut s, 6), vec![10, 20, 30, 0, 10, 20]);
    // the default step is one entry per sample too
    let mut d = t.source(4);
    assert_eq!(pull_all(&mut d, 5), vec![10, 20, 30, 0, 10]);
    // half an entry per sample blends neighbours
    let mut h = t.source(8).with_frequency(hz(1));
    assert_eq!(pull_all(&mut h, 4), vec![10, 5, 20, 15]);
    assert_eq!(h.sample_rate(), 8);
    assert_eq!(h.channels(), 1);
    assert_eq!(h.remaining_samples(), None);
}

#[test]
fn function_stream_plays_the_function() {
    let mut s = Waveform::Square.source(8).with_frequency(hz(1));
    assert_eq!(
        pull_all(&mut s, 9),
        vec![ONE, ONE, ONE, ONE, -ONE, -ONE, -ONE, -ONE, ONE]
    );
    let mut still = Waveform::Sawtooth.source(8);
    assert_eq!(pull_all(&mut still, 3), vec![-ONE, -ONE, -ONE]);
    assert_eq!(still.sample_rate(), 8);
    assert_eq!(still.remaining_samples(), None);
}

#[test]
fn envelope_gain_is_piecewise_linear() {
    let e = Envelope::new(vec![(10, 0), (20, 65536), (40, 0)]).unwrap();
    assert_eq!(e.gain(0), 0);
    assert_eq!(e.gain(15), 32768);
    assert_eq!(e.gain(20), 65536);
    assert_eq!(e.gain(30), 32768);
    assert_eq!(e.gain(39), 3276);
    assert_eq!(e.gain(40), 0);
    assert_eq!(e.gain(1000), 0);
    // before the first breakpoint the curve starts from silence at time zero
    let f = Envelope::new(vec![(4, 65536)]).unwrap();
    assert_eq!(f.gain(1), 16384);
}

#[test]
fn invalid_envelopes_are_refused() {
    assert!(Envelope::new(vec![]).is_none());
    assert!(Envelope::new(vec![(5, 0), (4, 0)]).is_none());
    assert!(Envelope::new(vec![(0, 65537)]).is_none());
    assert!(Envelope::new(vec![(u64::MAX, 0)]).is_none());
    assert!(Envelope::new(vec![(MAX_TIME, 0)]).is_some());
    assert!(Envelope::new(vec![(0, 0), (0, 65536), (3, 65536)]).is_some());
}

#[test]
fn rectangular_gate() {
    let hold: u64 = 441;
    let e = Envelope::adsr(ONE as u32, 0, 0, ONE as u32, hold, 0);
    let mut s = e.source_from(constant_table(ONE).source(44100));
    let out = pull_all(&mut s, 10_000);
    assert_eq!(out.len(), hold as usize + 1);
    assert_eq!(out.iter().filter(|&&v| v != 0).count(), hold as usize);
    assert!(out[..hold as usize].iter().all(|&v| v == ONE));
    assert_eq!(out[hold as usize], 0);
    assert_eq!(s.next_sample(), None);
    assert_eq!(s.next_sample(), None);
}

#[test]
fn envelope_reports_what_is_left() {
    let e = Envelope::adsr(ONE as u32, 2, 2, ONE as u32 / 2, 2, 2);
    let mut s = e.source_from(constant_table(ONE).source(10));
    assert_eq!(s.remaining_samples(), Some(8));
    s.next_sample();
    assert_eq!(s.remaining_samples(), Some(7));
    for _ in 0..7 {
        s.next_sample();
    }
    // the sample at the last breakpoint is still to come, but no time is left
    assert_eq!(s.remaining_samples(), Some(0));
    assert_eq!(s.next_sample(), Some(0));
    assert_eq!(s.remaining_samples(), Some(0));
    assert_eq!(s.next_sample(), None);
    let mut bounded = e.source_from(take_samples(constant_table(ONE).source(10), 3));
    assert_eq!(bounded.remaining_samples(), Some(3));
    assert_eq!(pull_all(&mut bounded, 100), vec![0, ONE / 2, ONE]);
    assert_eq!(bounded.sample_rate(), 10);
}

#[test]
fn adsr_scenario_ends_after_the_release() {
    let rate: u64 = 44100;
    let sine = sine_table(1024, 0.0);
    let stream = sine.source(rate as u32).with_frequency(hz(440));
    let e = Envelope::adsr(
        q16(0.8) as u32,
        rate / 10,
        rate / 10,
        q16(0.5) as u32,
        rate / 5,
        rate / 10,
    );
    assert_eq!(e.last_time(), rate / 2);
    let mut s = e.source_from(stream);
    let out = pull_all(&mut s, 1_000_000);
    assert_eq!(out.len() as u64, rate / 2 + 1);
    assert!(out.iter().all(|&v| (-ONE..=ONE).contains(&v)));
    assert_eq!(*out.last().unwrap(), 0);
}

#[test]
fn sine_scenario_zero_crossings() {
    let sine = sine_table(1024, 0.0);
    let mut s = sine.source(44100);
    s.set_frequency(hz(440));
    let out = pull_all(&mut s, 100);
    assert_eq!(out.len(), 100);
    assert!(out.iter().all(|&v| (-ONE..=ONE).contains(&v)));
    let half_period = 44100.0 / 440.0 / 2.0;
    let down = out.windows(2).position(|w| w[0] >= 0 && w[1] < 0).unwrap() as f64 + 1.0;
    assert!((down - half_period).abs() <= 1.0);

    let mut longer = sine.source(44100).with_frequency(hz(440));
    let samples = pull_all(&mut longer, 1000);
    let ups: Vec<usize> = samples
        .windows(2)
        .enumerate()
        .filter(|(_, w)| w[0] < 0 && w[1] >= 0)
        .map(|(i, _)| i)
        .collect();
    assert!(ups.len() >= 3);
    for pair in ups.windows(2) {
        let spacing = (pair[1] - pair[0]) as f64;
        assert!((spacing - 44100.0 / 440.0).abs() <= 1.0);
    }
}

#[test]
fn identity_biquad_passes_input_through() {
    let identity = BiQuad::new(0, 0, ONE, 0, 0);
    let raw: Vec<i32> = pull_all(&mut sine_table(100, 0.1).source(1000).with_frequency(hz(37)), 500);
    let mut f = identity.source_from(sine_table(100, 0.1).source(1000).with_frequency(hz(37)));
    f.with_initial_values(5, -7, 1000, -1000);
    assert_eq!(pull_all(&mut f, 500), raw);
}

#[test]
fn biquad_recurrence() {
    // y = x/2 + x1/2: a two-tap average
    let avg = BiQuad::new(0, 0, ONE / 2, ONE / 2, 0);
    let mut f = avg.source_from(constant_table(ONE).source(10));
    assert_eq!(pull_all(&mut f, 3), vec![ONE / 2, ONE, ONE]);
    // y = x + y1/2, from a seeded history
    let leaky = BiQuad::new(-ONE / 2, 0, ONE, 0, 0);
    let mut g = leaky.source_from(take_samples(constant_table(ONE).source(10), 3));
    g.with_initial_values(0, 0, 2 * ONE, 0);
    assert_eq!(pull_all(&mut g, 10), vec![2 * ONE, 2 * ONE, 2 * ONE]);
    assert_eq!(g.next_sample(), None);
    assert_eq!(leaky.output((0, 0, 0, 0), -3), -3);
    assert_eq!(BiQuad::new(0, 0, ONE / 2, 0, 0).output((0, 0, 0, 0), -3), -2);
    // an unstable filter holds at the ends of the range
    let wild = BiQuad::new(-2 * ONE, 0, ONE, 0, 0);
    assert_eq!(wild.output((0, 0, i32::MAX, 0), 0), i32::MAX);
    assert_eq!(wild.output((0, 0, i32::MIN, 0), 0), i32::MIN);
}

#[test]
fn take_cuts_off_a_stream() {
    let mut t = take_samples(constant_table(7).source(10), 3);
    assert_eq!(t.remaining_samples(), Some(3));
    assert_eq!(pull_all(&mut t, 10), vec![7, 7, 7]);
    assert_eq!(t.remaining_samples(), Some(0));
    assert_eq!(t.channels(), 1);
}

#[test]
fn dot_product_counts() {
    let a = constant_table(ONE).source(44100);
    let b = constant_table(ONE).source(44100);
    assert_eq!(dot_prod_samples(a, b, 0), 0);
    let a = constant_table(ONE).source(44100);
    let b = constant_table(-2).source(44100);
    assert_eq!(dot_prod_samples(a, b, 10), -2 * 65536 * 10);
    let a = take_samples(constant_table(3).source(44100), 4);
    let b = constant_table(5).source(44100);
    assert_eq!(dot_prod_samples(a, b, 10), 60);
    let a = constant_table(ONE).source(44100);
    let b = constant_table(ONE).source(44100);
    assert_eq!(dot_prod_duration(a, b, 1_000_000), 44 * (1i128 << 32));
}

#[test]
fn correlator_self_and_orthogonality() {
    let n: u64 = 44100;
    let scale = (1u64 << 32) as f64;
    let sine = || sine_table(4096, 0.0).source(44100).with_frequency(hz(441));
    let cosine = || sine_table(4096, 0.25).source(44100).with_frequency(hz(441));
    let ss = dot_prod_samples(sine(), sine(), n) as f64 / scale;
    assert!((ss - n as f64 / 2.0).abs() < n as f64 * 0.01);
    let sc = dot_prod_samples(sine(), cosine(), n) as f64 / scale;
    assert!(sc.abs() < n as f64 * 0.01);
}
