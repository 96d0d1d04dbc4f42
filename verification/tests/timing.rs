//! Tests for the metronome's phase accumulator and click rendering.

use std::sync::Arc;

use mini_leebee::audio_buffer::AudioBuffer;
use mini_leebee::metronome::Metronome;
use mini_leebee::sample::SAMPLE_UNIT;

fn click() -> Arc<AudioBuffer> {
    Arc::new(AudioBuffer::from_mono_samples(vec![SAMPLE_UNIT]))
}

#[test]
fn one_beat_per_24000_frames_at_120_bpm_48khz() {
    let mut m = Metronome::new(48000, 64, click());
    let start = m.current_time_info();
    assert_eq!(start.measure, -1);
    assert_eq!(start.beat, 3);
    assert_eq!(start.sub_beat_den, 60 * 48000);
    m.process(24000);
    let t = m.current_time_info();
    // Exactly one beat increment: the first tick lands on frame 0, the
    // second on frame 24000, which has not been processed yet.
    assert_eq!(t.measure, 0);
    assert_eq!(t.beat, 0);
    assert_eq!(t.sub_beat_num, 2_879_880);
    m.process(1);
    let t2 = m.current_time_info();
    assert_eq!(t2.measure, 0);
    assert_eq!(t2.beat, 1);
    assert_eq!(t2.sub_beat_num, 0);
}

#[test]
fn four_beat_increments_advance_the_measure_once() {
    let mut m = Metronome::new(2, 8, click());
    // At two frames per second and 120 bpm every frame is a tick.
    let t0 = m.current_time_info();
    assert_eq!((t0.measure, t0.beat), (-1, 3));
    m.process(1);
    let t = m.current_time_info();
    assert_eq!((t.measure, t.beat), (0, 0));
    m.process(4);
    let t = m.current_time_info();
    assert_eq!((t.measure, t.beat), (1, 0));
    m.process(4);
    let t = m.current_time_info();
    assert_eq!((t.measure, t.beat), (2, 0));
}

#[test]
fn time_trace_has_one_entry_per_frame_boundary() {
    let mut m = Metronome::new(48000, 16, click());
    let start = m.current_time_info();
    m.process(16);
    let trace = m.time_info();
    assert_eq!(trace.len(), 17);
    assert_eq!(trace[0], start);
    assert_eq!(trace[16], m.current_time_info());
}

#[test]
fn tick_plays_the_click_at_the_set_volume() {
    let mut m = Metronome::new(48000, 8, click());
    m.set_properties(48000, SAMPLE_UNIT, 120);
    assert_eq!(m.volume(), SAMPLE_UNIT);
    m.process(8);
    // The first frame carries the tick, so the click's single full-scale
    // sample lands on frame 0 of both channels.
    let out = m.output();
    assert_eq!(out.channels(), 2);
    assert_eq!(out.buffer_size(), 8);
    assert_eq!(out.sample(0, 0), SAMPLE_UNIT);
    assert_eq!(out.sample(1, 0), SAMPLE_UNIT);
    for i in 1..8 {
        assert_eq!(out.sample(0, i), 0);
    }
}

#[test]
fn muting_keeps_the_accumulator_running() {
    let mut m = Metronome::new(2, 4, click());
    m.set_properties(2, 0, 120);
    m.process(5);
    let t = m.current_time_info();
    assert_eq!((t.measure, t.beat), (1, 0));
}

#[test]
fn tempo_change_alters_only_the_future_slope() {
    let mut m = Metronome::new(48000, 8, click());
    m.process(12000);
    let before = m.current_time_info();
    m.set_properties(48000, 0, 60);
    let after = m.current_time_info();
    assert_eq!(after.measure, before.measure);
    assert_eq!(after.beat, before.beat);
    assert_eq!(after.sub_beat_num, before.sub_beat_num);
    // The fractional position kept its 1439880/2880000 of a beat, and
    // at 60 bpm the remaining 1440120 phase units arrive 60 per frame:
    // the next tick falls exactly 24002 frames later.
    m.process(24001);
    assert_eq!(m.current_time_info().beat, 0);
    m.process(1);
    assert_eq!(m.current_time_info().beat, 1);
}

#[test]
fn zero_tempo_freezes_the_accumulator() {
    let mut m = Metronome::new(48000, 8, click());
    m.set_properties(48000, SAMPLE_UNIT, 0);
    let before = m.current_time_info();
    m.process(1000);
    assert_eq!(m.current_time_info(), before);
    for i in 0..8 {
        assert_eq!(m.output().sample(0, i), 0);
    }
}
