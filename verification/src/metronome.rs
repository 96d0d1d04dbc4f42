//! The metronome: a phase-accumulator state machine that produces
//! drift-free sample-accurate timing, and an embedded click track driven
//! by the ticks it emits.
//!
//! The fractional beat position is an exact rational: its denominator is
//! `60 * sample_rate`, and every frame adds `bpm` to its numerator.  A
//! numerator reaching the denominator is a tick: one beat increment, and
//! a note-on for the click sample at that frame.

use vstd::prelude::*;

use std::sync::Arc;

use crate::audio_buffer::AudioBuffer;
use crate::events::{fires_note_on_in, EventSequence};
use crate::midi::{lemma_tick_note_is_note_on, spec_tick_note_bytes, tick_note_bytes};
use crate::plugin::{trig_cursor, trig_output, PluginInstance, SampleTrigger, UnavailableRuntime};
use crate::track::{all_sample, Track};

verus! {

/// Contains information for the timing of a frame.  The fractional part
/// of the beat is the exact rational `sub_beat_num / sub_beat_den`, a
/// value in `[0, 1)`.
#[derive(Copy, Clone, Debug, PartialEq, Eq, Structural)]
pub struct SampleTimeInfo {
    /// The measure: four beats long, advancing when the beat wraps.
    pub measure: i16,
    /// The beat within the measure, in `[0, 4)`.
    pub beat: i16,
    /// The numerator of the fractional beat position.
    pub sub_beat_num: u64,
    /// The denominator of the fractional beat position: sixty times the
    /// sample rate, so that adding the tempo once per frame is exact.
    pub sub_beat_den: u64,
}

/// A timing state is well formed: the beat lies in `[0, 4)` and the
/// fractional position lies below one.
pub open spec fn time_wf(t: SampleTimeInfo) -> bool {
    &&& 0 <= t.beat < 4
    &&& t.sub_beat_den >= 1
    &&& t.sub_beat_num < t.sub_beat_den
}

/// The next frame's phase accumulation crosses a beat boundary.
pub open spec fn time_ticks(t: SampleTimeInfo, bpm: u32) -> bool {
    t.sub_beat_num + bpm >= t.sub_beat_den
}

/// The measure after one more measure has elapsed, wrapping at the end
/// of the sixteen-bit range.
pub open spec fn next_measure(m: i16) -> i16 {
    if m == i16::MAX {
        i16::MIN
    } else {
        (m + 1) as i16
    }
}

/// One beat increment: the beat advances, resetting to zero and carrying
/// into the measure after the fourth beat.
pub open spec fn advance_beat(measure: i16, beat: i16) -> (i16, i16) {
    if beat + 1 >= 4 {
        (next_measure(measure), 0i16)
    } else {
        (measure, (beat + 1) as i16)
    }
}

/// The timing state after one frame at the given tempo.
pub open spec fn time_step(t: SampleTimeInfo, bpm: u32) -> SampleTimeInfo {
    if time_ticks(t, bpm) {
        let (m2, b2) = advance_beat(t.measure, t.beat);
        SampleTimeInfo {
            measure: m2,
            beat: b2,
            sub_beat_num: (t.sub_beat_num + bpm - t.sub_beat_den) as u64,
            sub_beat_den: t.sub_beat_den,
        }
    } else {
        SampleTimeInfo { sub_beat_num: (t.sub_beat_num + bpm) as u64, ..t }
    }
}

/// The timing state after `n` frames at the given tempo.
pub open spec fn time_after(t: SampleTimeInfo, bpm: u32, n: nat) -> SampleTimeInfo
    decreases n,
{
    if n == 0 {
        t
    } else {
        time_step(time_after(t, bpm, (n - 1) as nat), bpm)
    }
}

/// The beats elapsed since measure zero started: four per measure.
pub open spec fn beat_index(t: SampleTimeInfo) -> int {
    4 * t.measure + t.beat
}

/// The total phase of a timing state, in units of `1 / sub_beat_den`
/// beats: whole beats plus the fractional position.
pub open spec fn time_total(t: SampleTimeInfo) -> int {
    beat_index(t) * t.sub_beat_den + t.sub_beat_num
}

/// One frame advances the total phase by exactly the tempo increment:
/// the accumulator never drifts.  The measure counter must stay clear of
/// its wraparound point.
pub proof fn lemma_step_total(t: SampleTimeInfo, bpm: u32)
    requires
        time_wf(t),
        1 <= bpm <= t.sub_beat_den,
        t.measure < i16::MAX,
    ensures
        time_wf(time_step(t, bpm)),
        time_step(t, bpm).sub_beat_den == t.sub_beat_den,
        time_total(time_step(t, bpm)) == time_total(t) + bpm,
        beat_index(time_step(t, bpm)) == beat_index(t) + if time_ticks(t, bpm) {
            1int
        } else {
            0int
        },
{
    let s = time_step(t, bpm);
    if time_ticks(t, bpm) {
        assert(beat_index(s) == beat_index(t) + 1);
        assert((beat_index(t) + 1) * t.sub_beat_den == beat_index(t) * t.sub_beat_den
            + t.sub_beat_den) by (nonlinear_arith);
    }
}

/// After `n` frames the total phase has advanced by exactly `n` times
/// the tempo increment, as long as the measure counter stays clear of
/// its wraparound point.
pub proof fn lemma_total_after(t: SampleTimeInfo, bpm: u32, n: nat)
    requires
        time_wf(t),
        1 <= bpm <= t.sub_beat_den,
        time_total(t) + n * bpm < 4 * (i16::MAX as int) * t.sub_beat_den,
    ensures
        time_wf(time_after(t, bpm, n)),
        time_after(t, bpm, n).sub_beat_den == t.sub_beat_den,
        time_total(time_after(t, bpm, n)) == time_total(t) + n * bpm,
    decreases n,
{
    if n == 0 {
        assert(n * bpm == 0) by (nonlinear_arith)
            requires
                n == 0,
        ;
    } else {
        assert((n - 1) * bpm + bpm == n * bpm) by (nonlinear_arith)
            requires
                n >= 1,
        ;
        assert((n - 1) * bpm >= 0) by (nonlinear_arith)
            requires
                n >= 1,
                bpm >= 1,
        ;
        lemma_total_after(t, bpm, (n - 1) as nat);
        let prev = time_after(t, bpm, (n - 1) as nat);
        assert(prev.measure < i16::MAX) by {
            if prev.measure >= i16::MAX {
                assert(beat_index(prev) >= 4 * (i16::MAX as int));
                assert(beat_index(prev) * prev.sub_beat_den >= 4 * (i16::MAX as int)
                    * prev.sub_beat_den) by (nonlinear_arith)
                    requires
                        beat_index(prev) >= 4 * (i16::MAX as int),
                        prev.sub_beat_den >= 1,
                ;
            }
        }
        lemma_step_total(prev, bpm);
        assert(time_after(t, bpm, n) == time_step(prev, bpm));
        assert(time_total(time_step(prev, bpm)) == time_total(t) + (n - 1) * bpm + bpm);
        assert(time_total(time_after(t, bpm, n)) == time_total(t) + n * bpm);
    }
}

/// The measure advances exactly at a tick that arrives with the beat at
/// three, and at no other frame.
pub proof fn lemma_measure_changes_only_at_wrap(t: SampleTimeInfo, bpm: u32)
    requires
        time_wf(t),
    ensures
        time_step(t, bpm).measure != t.measure <==> (time_ticks(t, bpm) && t.beat == 3),
{
}

/// Four beat increments starting at the top of a measure land back on
/// beat zero with the measure advanced by exactly one.
pub proof fn lemma_four_beat_increments(m: i16, b: i16)
    requires
        b == 0,
        m < i16::MAX,
    ensures
        ({
            let (m1, b1) = advance_beat(m, b);
            let (m2, b2) = advance_beat(m1, b1);
            let (m3, b3) = advance_beat(m2, b2);
            let (m4, b4) = advance_beat(m3, b3);
            b4 == 0 && m4 == m + 1
        }),
{
}

/// The initial timing state: one frame before the first tick, so the
/// very first frame processed lands on beat zero of measure zero.
pub open spec fn initial_time(sample_rate: u32, bpm: u32) -> SampleTimeInfo {
    SampleTimeInfo {
        measure: -1i16,
        beat: 3i16,
        sub_beat_num: (60 * sample_rate - bpm) as u64,
        sub_beat_den: (60 * sample_rate) as u64,
    }
}

/// At 120 beats per minute and 48000 frames per second the tempo is one
/// beat per 24000 frames exactly: starting from the initial state, whose
/// beat index is minus one, the first frame ticks (beat index zero), and
/// after exactly 24000 frames the beat index is still zero, with frame
/// 24000 delivering the second tick.
pub proof fn lemma_beat_interval_at_120_48000()
    ensures
        ({
            let t0 = initial_time(48000, 120);
            let t = time_after(t0, 120, 24000);
            &&& beat_index(t0) == -1
            &&& beat_index(t) == 0
            &&& t.measure == 0 && t.beat == 0
            &&& time_ticks(t, 120)
        }),
{
    let t0 = initial_time(48000, 120);
    let den = 2880000int;
    assert(time_total(t0) == -120) by {
        assert(beat_index(t0) == -1);
    }
    assert(24000 * 120 == 2880000int) by (nonlinear_arith);
    lemma_total_after(t0, 120, 24000);
    let t = time_after(t0, 120, 24000);
    assert(time_total(t) == 2879880);
    assert(beat_index(t) == 0) by {
        assert(beat_index(t) * den + t.sub_beat_num == 2879880);
        assert(0 <= t.sub_beat_num < den);
        assert(beat_index(t) == 0) by (nonlinear_arith)
            requires
                beat_index(t) * den + t.sub_beat_num == 2879880,
                0 <= t.sub_beat_num < den,
                den == 2880000int,
        ;
    }
    assert(t.sub_beat_num == 2879880);
    assert(4 * t.measure + t.beat == 0 && 0 <= t.beat < 4 ==> t.measure == 0 && t.beat == 0)
        by (nonlinear_arith);
}

/// Produces metronome ticks and timing information, and renders the
/// audible click through an embedded track.
#[derive(Debug)]
pub struct Metronome {
    track: Track,
    events: EventSequence,
    current_time_info: SampleTimeInfo,
    time_info: Vec<SampleTimeInfo>,
    bpm: u32,
}

impl Metronome {
    /// The current timing state.
    pub closed spec fn spec_time(&self) -> SampleTimeInfo {
        self.current_time_info
    }

    /// The tempo, in beats per minute.
    pub closed spec fn spec_bpm(&self) -> u32 {
        self.bpm
    }

    /// The fixed-point volume at which the click is mixed.
    pub closed spec fn spec_volume(&self) -> i64 {
        self.track.spec_properties().volume
    }

    /// The per-frame timing trace of the most recent processing run.
    pub closed spec fn spec_time_trace(&self) -> Seq<SampleTimeInfo> {
        self.time_info@
    }

    /// The event sequence of the most recent processing run.
    pub closed spec fn spec_events(&self) -> Seq<(u32, Seq<u8>)> {
        self.events@
    }

    /// The output buffer of the most recent processing run.
    pub closed spec fn spec_output(&self) -> AudioBuffer {
        self.track.spec_output()
    }

    /// The waveform of the click sample.
    pub closed spec fn spec_click_wave(&self) -> Seq<i64> {
        match self.track.spec_plugins()[0] {
            PluginInstance::Sample(t) => t.spec_wave(),
            PluginInstance::Hosted(_) => Seq::empty(),
        }
    }

    /// The play cursor of the click sample.
    pub closed spec fn spec_click_cursor(&self) -> Option<int> {
        match self.track.spec_plugins()[0] {
            PluginInstance::Sample(t) => t.spec_cursor(),
            PluginInstance::Hosted(_) => None,
        }
    }

    /// The well-formedness invariant: a valid timing state whose tempo
    /// is between one beat per minute and one beat per frame, and an
    /// embedded track holding exactly the click sample.
    pub closed spec fn spec_wf(&self) -> bool {
        &&& time_wf(self.current_time_info)
        &&& self.current_time_info.sub_beat_den <= 60 * (u32::MAX as u64)
        &&& self.bpm <= self.current_time_info.sub_beat_den
        &&& self.track.spec_wf()
        &&& self.track.spec_plugins().len() == 1
        &&& self.track.spec_plugins()[0] matches PluginInstance::Sample(_)
        &&& self.events.spec_wf()
    }

    /// What the engine invariant gives of the timing state: a
    /// well-formed time whose denominator bounds the tempo.
    pub proof fn lemma_wf_time(&self)
        requires
            self.spec_wf(),
        ensures
            time_wf(self.spec_time()),
            self.spec_bpm() <= self.spec_time().sub_beat_den,
            self.spec_time().sub_beat_den <= 60 * (u32::MAX as u64),
    {
    }

    /// Creates a new metronome at 120 beats per minute, muted, with the
    /// given click waveform.
    pub fn new(sample_rate: u32, buffer_size: usize, click: Arc<AudioBuffer>) -> (r: Metronome)
        requires
            sample_rate >= 2,
            2 * buffer_size <= usize::MAX,
            click.spec_wf(),
        ensures
            r.spec_wf(),
            r.spec_time() == initial_time(sample_rate, 120),
            r.spec_bpm() == 120,
            r.spec_volume() == 0,
            r.spec_click_cursor() is None,
    {
        let mut track = Track::new(-1, buffer_size);
        track.set_volume(0);
        track.push_plugin(PluginInstance::Sample(SampleTrigger::new(click)));
        let den: u64 = 60 * (sample_rate as u64);
        let metronome = Metronome {
            track,
            events: EventSequence::new(),
            current_time_info: SampleTimeInfo {
                measure: -1,
                beat: 3,
                sub_beat_num: den - 120,
                sub_beat_den: den,
            },
            time_info: Vec::new(),
            bpm: 120,
        };
        metronome
    }

    /// Sets the metronome's tempo and click volume.  A tempo of zero
    /// stops the accumulator (no frame ever ticks); the ceiling of one
    /// beat per frame is the representable maximum.  The fractional beat
    /// position is kept, reinterpreted over the new denominator and
    /// clamped below one beat, so a tempo change alters only the future
    /// slope of the accumulator.
    pub fn set_properties(&mut self, sample_rate: u32, volume: i64, bpm: u32)
        requires
            old(self).spec_wf(),
            sample_rate >= 1,
            bpm <= 60 * sample_rate,
        ensures
            final(self).spec_wf(),
            final(self).spec_bpm() == bpm,
            final(self).spec_volume() == volume,
            final(self).spec_time().measure == old(self).spec_time().measure,
            final(self).spec_time().beat == old(self).spec_time().beat,
            final(self).spec_time().sub_beat_den == 60 * sample_rate,
            final(self).spec_time().sub_beat_num == if old(self).spec_time().sub_beat_num < 60
                * sample_rate {
                old(self).spec_time().sub_beat_num as int
            } else {
                60 * sample_rate - 1
            },
            final(self).spec_click_wave() == old(self).spec_click_wave(),
            final(self).spec_click_cursor() == old(self).spec_click_cursor(),
    {
        let den: u64 = 60 * (sample_rate as u64);
        let num: u64 = if self.current_time_info.sub_beat_num < den {
            self.current_time_info.sub_beat_num
        } else {
            den - 1
        };
        self.current_time_info = SampleTimeInfo {
            measure: self.current_time_info.measure,
            beat: self.current_time_info.beat,
            sub_beat_num: num,
            sub_beat_den: den,
        };
        self.bpm = bpm;
        self.track.set_volume(volume);
    }

    /// Get the tempo of the metronome, in beats per minute.
    pub fn bpm(&self) -> (r: u32)
        ensures
            r == self.spec_bpm(),
    {
        self.bpm
    }

    /// Get the volume of the metronome.
    pub fn volume(&self) -> (r: i64)
        ensures
            r == self.spec_volume(),
    {
        self.track.properties().volume
    }

    /// Get the current time info.
    pub fn current_time_info(&self) -> (r: SampleTimeInfo)
        ensures
            r == self.spec_time(),
    {
        self.current_time_info
    }

    /// The timing trace of the most recent processing run: one entry per
    /// frame boundary, starting with the state before the first frame.
    pub fn time_info(&self) -> (r: &Vec<SampleTimeInfo>)
        ensures
            r@ == self.spec_time_trace(),
    {
        &self.time_info
    }

    /// The click audio of the most recent processing run.
    pub fn output(&self) -> (r: &AudioBuffer)
        ensures
            *r == self.spec_output(),
    {
        self.track.output()
    }

    /// Process the metronome for the given number of frames: the phase
    /// accumulator advances once per frame, emitting a note-on into the
    /// internal event sequence at every tick, and the embedded click
    /// track renders those events.
    pub fn process(&mut self, samples: usize)
        requires
            old(self).spec_wf(),
            2 * samples <= usize::MAX,
            samples <= u32::MAX,
        ensures
            final(self).spec_wf(),
            final(self).spec_bpm() == old(self).spec_bpm(),
            final(self).spec_volume() == old(self).spec_volume(),
            final(self).spec_time() == time_after(
                old(self).spec_time(),
                old(self).spec_bpm(),
                samples as nat,
            ),
            final(self).spec_time().sub_beat_den == old(self).spec_time().sub_beat_den,
            final(self).spec_time_trace().len() == samples + 1,
            forall|i: int|
                0 <= i <= samples ==> #[trigger] final(self).spec_time_trace()[i] == time_after(
                    old(self).spec_time(),
                    old(self).spec_bpm(),
                    i as nat,
                ),
            forall|f: int|
                0 <= f < samples ==> (#[trigger] fires_note_on_in(final(self).spec_events(), f)
                    == time_ticks(
                    time_after(old(self).spec_time(), old(self).spec_bpm(), f as nat),
                    old(self).spec_bpm(),
                )),
            final(self).spec_output().spec_wf(),
            final(self).spec_output().spec_channels() == 2,
            final(self).spec_output().spec_buffer_size() == samples,
            final(self).spec_click_wave() == old(self).spec_click_wave(),
            forall|c: int, f: int|
                0 <= c < 2 && 0 <= f < samples ==> #[trigger] final(self).spec_output().sample_at(
                    c,
                    f,
                ) == trig_output(
                    old(self).spec_click_wave(),
                    old(self).spec_click_cursor(),
                    final(self).spec_events(),
                    f,
                ),
    {
        let ghost t0 = self.current_time_info;
        let ghost bpm0 = self.bpm;
        self.time_info.clear();
        self.time_info.push(self.current_time_info);
        self.events.clear();
        let mut f: usize = 0;
        while f < samples
            invariant
                f <= samples,
                samples <= u32::MAX,
                self.spec_wf(),
                self.bpm == bpm0,
                self.track == old(self).track,
                time_wf(t0),
                bpm0 <= t0.sub_beat_den,
                self.current_time_info == time_after(t0, bpm0, f as nat),
                self.current_time_info.sub_beat_den == t0.sub_beat_den,
                self.time_info@.len() == f + 1,
                forall|i: int|
                    0 <= i <= f ==> #[trigger] self.time_info@[i] == time_after(
                        t0,
                        bpm0,
                        i as nat,
                    ),
                forall|k: int|
                    0 <= k < self.events@.len() ==> (#[trigger] self.events@[k]).0 < f,
                forall|ff: int|
                    0 <= ff < f ==> (#[trigger] fires_note_on_in(self.events@, ff) == time_ticks(
                        time_after(t0, bpm0, ff as nat),
                        bpm0,
                    )),
            decreases samples - f,
        {
            let t = self.current_time_info;
            proof {
                assert(time_wf(t));
            }
            let num2: u64 = t.sub_beat_num + self.bpm as u64;
            if num2 >= t.sub_beat_den {
                let beat2: i16 = t.beat + 1;
                let next: SampleTimeInfo = if beat2 >= 4 {
                    let measure2: i16 = if t.measure == i16::MAX {
                        i16::MIN
                    } else {
                        t.measure + 1
                    };
                    SampleTimeInfo {
                        measure: measure2,
                        beat: 0,
                        sub_beat_num: num2 - t.sub_beat_den,
                        sub_beat_den: t.sub_beat_den,
                    }
                } else {
                    SampleTimeInfo {
                        measure: t.measure,
                        beat: beat2,
                        sub_beat_num: num2 - t.sub_beat_den,
                        sub_beat_den: t.sub_beat_den,
                    }
                };
                self.current_time_info = next;
                let ghost before = self.events@;
                let accepted = self.events.push(f as u32, tick_note_bytes());
                proof {
                    assert(accepted);
                    lemma_tick_note_is_note_on();
                    assert(self.events@.last() == (f as u32, spec_tick_note_bytes()));
                    assert forall|ff: int| 0 <= ff < f + 1 implies (#[trigger] fires_note_on_in(
                        self.events@,
                        ff,
                    ) == time_ticks(time_after(t0, bpm0, ff as nat), bpm0)) by {
                        let n2 = self.events@.len();
                        if ff == f as int {
                            assert(self.events@[n2 - 1].0 == ff
                                && crate::midi::spec_note_on_velocity(self.events@[n2 - 1].1)
                                is Some);
                            assert(fires_note_on_in(self.events@, ff));
                            assert(time_ticks(time_after(t0, bpm0, ff as nat), bpm0));
                        } else {
                            assert(fires_note_on_in(before, ff) ==> fires_note_on_in(
                                self.events@,
                                ff,
                            )) by {
                                if fires_note_on_in(before, ff) {
                                    let k = choose|k: int|
                                        0 <= k < before.len() && (#[trigger] before[k]).0 == ff
                                            && crate::midi::spec_note_on_velocity(before[k].1)
                                            is Some;
                                    assert(self.events@[k] == before[k]);
                                }
                            }
                            assert(fires_note_on_in(self.events@, ff) ==> fires_note_on_in(
                                before,
                                ff,
                            )) by {
                                if fires_note_on_in(self.events@, ff) {
                                    let k = choose|k: int|
                                        0 <= k < self.events@.len() && (#[trigger] self.events@[
                                            k]).0 == ff && crate::midi::spec_note_on_velocity(
                                            self.events@[k].1,
                                        ) is Some;
                                    assert(k < n2 - 1);
                                    assert(before[k] == self.events@[k]);
                                }
                            }
                        }
                    }
                }
            } else {
                self.current_time_info = SampleTimeInfo {
                    measure: t.measure,
                    beat: t.beat,
                    sub_beat_num: num2,
                    sub_beat_den: t.sub_beat_den,
                };
                proof {
                    assert forall|ff: int| 0 <= ff < f + 1 implies (#[trigger] fires_note_on_in(
                        self.events@,
                        ff,
                    ) == time_ticks(time_after(t0, bpm0, ff as nat), bpm0)) by {
                        if ff == f as int {
                            assert(!time_ticks(time_after(t0, bpm0, ff as nat), bpm0));
                            assert(!fires_note_on_in(self.events@, ff)) by {
                                if fires_note_on_in(self.events@, ff) {
                                    let k = choose|k: int|
                                        0 <= k < self.events@.len() && (#[trigger] self.events@[
                                            k]).0 == ff && crate::midi::spec_note_on_velocity(
                                            self.events@[k].1,
                                        ) is Some;
                                    assert(self.events@[k].0 < f);
                                }
                            }
                        }
                    }
                }
            }
            proof {
                assert(self.current_time_info == time_after(t0, bpm0, (f + 1) as nat));
            }
            self.time_info.push(self.current_time_info);
            f = f + 1;
        }
        let ghost events_now = self.events@;
        let mut runtime = UnavailableRuntime;
        let _ = self.track.process(samples, &self.events, &mut runtime);
        proof {
            assert(all_sample(old(self).track.spec_plugins()));
            assert(self.events@ == events_now);
        }
    }
}

} // verus!
