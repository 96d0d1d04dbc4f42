//! A real-time multi-track audio mixing and processing engine.
//!
//! The engine executes inside a time-critical callback driven by an audio
//! backend once per fixed-size sample buffer.  It mixes the output of a
//! set of tracks (each an ordered chain of plugin instances), advances a
//! tempo/metronome state machine with sample-accurate timing, and applies
//! control commands delivered through a bounded queue.
//!
//! Audio samples are Q47.16 fixed-point values: the integer `65536`
//! stands for a full-scale amplitude of one.  All sample arithmetic is
//! exact and saturating, so every signal path is total and free of
//! overflow.

use vstd::prelude::*;

pub mod audio_buffer;
pub mod commands;
pub mod events;
pub mod metronome;
pub mod midi;
pub mod plugin;
pub mod sample;
pub mod state;
pub mod track;

use std::sync::Arc;

use crate::audio_buffer::AudioBuffer;
use crate::commands::{Command, CommandQueue, NotificationQueue, Notifications};
use crate::events::{EventSequence, MidiEvent};
use crate::metronome::{Metronome, SampleTimeInfo};
use crate::plugin::{trig_cursor, trig_output, HostedRuntime, PluginInstance, SampleTrigger};
use crate::sample::{spec_mix, spec_scale};
use crate::track::{all_sample, Track, TrackModel};

verus! {

/// The control-facing models of a sequence of tracks.
pub open spec fn track_models(tracks: Seq<Track>) -> Seq<TrackModel> {
    Seq::new(tracks.len(), |k: int| tracks[k].model())
}

/// The full track values and the control-facing model describe the
/// same tracks, index by index.
pub proof fn lemma_tracks_model(p: &Processor)
    ensures
        track_models(p.spec_tracks()) == p.spec_model().tracks,
{
}

/// The control-facing model of the engine: everything that command
/// application reads and changes.
#[verifier::ext_equal]
pub ghost struct EngineModel {
    /// The tracks, in insertion order.
    pub tracks: Seq<TrackModel>,
    /// The fixed-point volume of the metronome click.
    pub metronome_volume: int,
    /// The metronome tempo, in beats per minute.
    pub metronome_bpm: int,
    /// The pending one-shot sound, if any.
    pub sound: Option<SampleTrigger>,
    /// The engine's fixed sample rate, in frames per second.
    pub sample_rate: int,
}

/// The index of the first track with the given id, or `-1` when no
/// track has it.
pub open spec fn find_track(tracks: Seq<TrackModel>, id: int) -> int
    decreases tracks.len(),
{
    if tracks.len() == 0 {
        -1
    } else if tracks[0].id == id {
        0
    } else {
        let r = find_track(tracks.drop_first(), id);
        if r == -1 {
            -1
        } else {
            r + 1
        }
    }
}

/// The tracks that remain when every track with the given id is
/// deleted, in their original order.
pub open spec fn without_id(tracks: Seq<TrackModel>, id: int) -> Seq<TrackModel>
    decreases tracks.len(),
{
    if tracks.len() == 0 {
        Seq::empty()
    } else {
        let rest = without_id(tracks.drop_last(), id);
        if tracks.last().id == id {
            rest
        } else {
            rest.push(tracks.last())
        }
    }
}

/// The tracks after arming the given id: exactly the tracks with that
/// id are armed, every other track is disarmed, and nothing else
/// changes.
pub open spec fn armed_exactly(tracks: Seq<TrackModel>, id: int) -> Seq<TrackModel> {
    Seq::new(tracks.len(), |k: int| TrackModel { armed: tracks[k].id == id, ..tracks[k] })
}

/// The engine model after one command is applied.  A command that
/// references an unknown track id or an out-of-range plugin index is a
/// silent no-op.  A metronome command always applies its volume; a
/// tempo above one beat per frame (the representable ceiling of the
/// rational accumulator) keeps the previous tempo.
pub open spec fn apply_command(s: EngineModel, c: Command) -> EngineModel {
    match c {
        Command::AddTrack(t) => EngineModel { tracks: s.tracks.push(t.model()), ..s },
        Command::DeleteTrack(id) => EngineModel { tracks: without_id(s.tracks, id as int), ..s },
        Command::AddPluginToTrack(id, p) => {
            let k = find_track(s.tracks, id as int);
            if k == -1 {
                s
            } else {
                EngineModel {
                    tracks: s.tracks.update(
                        k,
                        TrackModel { plugins: s.tracks[k].plugins.push(p), ..s.tracks[k] },
                    ),
                    ..s
                }
            }
        },
        Command::DeletePlugin(id, idx) => {
            let k = find_track(s.tracks, id as int);
            if k == -1 || idx >= s.tracks[k].plugins.len() {
                s
            } else {
                EngineModel {
                    tracks: s.tracks.update(
                        k,
                        TrackModel {
                            plugins: s.tracks[k].plugins.remove(idx as int),
                            ..s.tracks[k]
                        },
                    ),
                    ..s
                }
            }
        },
        Command::SetMetronome { volume, beats_per_minute } => {
            let bpm = if beats_per_minute <= 60 * s.sample_rate {
                beats_per_minute as int
            } else {
                s.metronome_bpm
            };
            EngineModel { metronome_volume: volume as int, metronome_bpm: bpm, ..s }
        },
        Command::ArmTrack(id) => EngineModel { tracks: armed_exactly(s.tracks, id as int), ..s },
        Command::PlaySound(t) => EngineModel { sound: Some(t), ..s },
    }
}

/// The engine model after a sequence of commands is applied, strictly
/// in order, each exactly once.
pub open spec fn apply_commands(s: EngineModel, cs: Seq<Command>) -> EngineModel
    decreases cs.len(),
{
    if cs.len() == 0 {
        s
    } else {
        apply_command(apply_commands(s, cs.drop_last()), cs.last())
    }
}

/// The mix buffer before any track is folded in: the one-shot sound's
/// rendering (silence when none is active) plus the metronome click at
/// the metronome's volume.
pub open spec fn spec_callback_base(
    sound: Option<SampleTrigger>,
    metronome_out: AudioBuffer,
    metronome_volume: int,
    c: int,
    i: int,
) -> int {
    let sound_part: int = match sound {
        Some(tr) => trig_output(
            tr.spec_wave(),
            tr.spec_cursor(),
            Seq::<(u32, Seq<u8>)>::empty(),
            i,
        ) as int,
        None => 0int,
    };
    spec_mix(sound_part, spec_scale(metronome_out.sample_at(c, i) as int, metronome_volume))
}

/// The running mix after folding in the first `upto` tracks: a track
/// that was disabled before the frame phase is skipped entirely, and
/// every other track's fresh output accumulates at its volume.
pub open spec fn spec_mix_fold(
    base: int,
    pre: Seq<TrackModel>,
    post: Seq<Track>,
    c: int,
    i: int,
    upto: int,
) -> int
    decreases upto,
{
    if upto <= 0 {
        base
    } else {
        let acc = spec_mix_fold(base, pre, post, c, i, upto - 1);
        if pre[upto - 1].disabled {
            acc
        } else {
            spec_mix(
                acc,
                spec_scale(
                    post[upto - 1].spec_output().sample_at(c, i) as int,
                    post[upto - 1].spec_properties().volume as int,
                ),
            )
        }
    }
}

/// The fold reads only the first `upto` entries of the processed
/// tracks.
pub proof fn lemma_mix_fold_prefix(
    base: int,
    pre: Seq<TrackModel>,
    post1: Seq<Track>,
    post2: Seq<Track>,
    c: int,
    i: int,
    upto: int,
)
    requires
        forall|j: int| 0 <= j < upto ==> #[trigger] post1[j] == post2[j],
    ensures
        spec_mix_fold(base, pre, post1, c, i, upto) == spec_mix_fold(base, pre, post2, c, i, upto),
    decreases upto,
{
    if upto > 0 {
        lemma_mix_fold_prefix(base, pre, post1, post2, c, i, upto - 1);
    }
}

/// An enabled all-sample track after the frame phase, relative to the
/// event sequence its chain read: it was not disabled, its output
/// equals the last trigger's rendering (silence for an empty chain),
/// and every trigger's cursor advanced by the callback's frames.
pub open spec fn track_rendered(
    pre: TrackModel,
    post: Track,
    events: Seq<(u32, Seq<u8>)>,
    samples: int,
) -> bool {
    &&& post.spec_properties().disabled == pre.disabled
    &&& pre.plugins.len() == 0 ==> post.spec_output().all_zero()
    &&& pre.plugins.len() > 0 ==> (pre.plugins.last() matches PluginInstance::Sample(t)
        && forall|c: int, i: int|
        0 <= c < 2 && 0 <= i < samples ==> (#[trigger] post.spec_output().sample_at(c, i))
            == trig_output(t.spec_wave(), t.spec_cursor(), events, i))
    &&& forall|k: int|
        0 <= k < pre.plugins.len() ==> ((#[trigger] pre.plugins[k]) matches
            PluginInstance::Sample(t) ==> (post.spec_plugins()[k] matches
            PluginInstance::Sample(t2) && t2.spec_cursor() == trig_cursor(
            t.spec_wave(),
            t.spec_cursor(),
            events,
            samples as nat,
        )))
}

/// `find_track` returns the first matching index.
pub proof fn lemma_find_track_some(tracks: Seq<TrackModel>, id: int, k: int)
    requires
        0 <= k < tracks.len(),
        tracks[k].id == id,
        forall|j: int| 0 <= j < k ==> (#[trigger] tracks[j]).id != id,
    ensures
        find_track(tracks, id) == k,
    decreases tracks.len(),
{
    if k == 0 {
    } else {
        assert(tracks[0].id != id);
        lemma_find_track_some(tracks.drop_first(), id, k - 1);
    }
}

/// `find_track` reports `-1` exactly when no track has the id.
pub proof fn lemma_find_track_none(tracks: Seq<TrackModel>, id: int)
    requires
        forall|j: int| 0 <= j < tracks.len() ==> (#[trigger] tracks[j]).id != id,
    ensures
        find_track(tracks, id) == -1,
    decreases tracks.len(),
{
    if tracks.len() == 0 {
    } else {
        lemma_find_track_none(tracks.drop_first(), id);
    }
}

/// Deleting a track id removes every track with that id and keeps every
/// other track.
pub proof fn lemma_without_id_complete(tracks: Seq<TrackModel>, id: int)
    ensures
        forall|j: int|
            0 <= j < without_id(tracks, id).len() ==> (#[trigger] without_id(tracks, id)[j]).id
                != id,
        forall|j: int|
            0 <= j < tracks.len() && (#[trigger] tracks[j]).id != id ==> without_id(
                tracks,
                id,
            ).contains(tracks[j]),
    decreases tracks.len(),
{
    if tracks.len() == 0 {
    } else {
        lemma_without_id_complete(tracks.drop_last(), id);
        let rest = without_id(tracks.drop_last(), id);
        assert forall|j: int|
            0 <= j < tracks.len() && (#[trigger] tracks[j]).id != id implies without_id(
            tracks,
            id,
        ).contains(tracks[j]) by {
            if j < tracks.len() - 1 {
                assert(tracks.drop_last()[j] == tracks[j]);
                assert(rest.contains(tracks[j]));
                let w = choose|w: int| 0 <= w < rest.len() && rest[w] == tracks[j];
                if tracks.last().id == id {
                    assert(without_id(tracks, id)[w] == tracks[j]);
                } else {
                    assert(without_id(tracks, id)[w] == tracks[j]);
                }
            } else {
                assert(tracks.last() == tracks[j]);
                assert(without_id(tracks, id).last() == tracks[j]);
            }
        }
    }
}

/// Arming one track disarms every other track: afterwards a track is
/// armed exactly when it carries the armed id, and nothing else about
/// any track changes.
pub proof fn lemma_arm_track_exclusive(s: EngineModel, id: i32)
    ensures
        ({
            let s2 = apply_command(s, Command::ArmTrack(id));
            &&& s2.tracks.len() == s.tracks.len()
            &&& forall|j: int|
                0 <= j < s.tracks.len() ==> {
                    let t2 = #[trigger] s2.tracks[j];
                    let t = s.tracks[j];
                    &&& t2.armed == (t.id == id)
                    &&& t2.id == t.id
                    &&& t2.volume == t.volume
                    &&& t2.disabled == t.disabled
                    &&& t2.plugins == t.plugins
                }
            &&& s2.metronome_volume == s.metronome_volume
            &&& s2.metronome_bpm == s.metronome_bpm
            &&& s2.sound == s.sound
        }),
{
}

/// Manages audio and midi processing: the per-callback orchestrator.
/// It drains pending commands, advances the metronome, processes every
/// enabled track, mixes everything into one output buffer, and
/// publishes timing notifications.
#[derive(Debug)]
pub struct Processor {
    /// The tracks to process.
    tracks: Vec<Track>,
    /// The pending one-shot sound effect, if any.
    sound_effect: Option<SampleTrigger>,
    /// The engine's fixed sample rate, in frames per second.
    sample_rate: u32,
    /// The empty event sequence handed to disarmed tracks.
    empty_midi: EventSequence,
    /// The event sequence built from the callback's raw event input.
    midi_input: EventSequence,
    /// The buffer the callback's mix is written to.
    audio_out: AudioBuffer,
    /// The bounded queue of commands from the control plane.
    commands: CommandQueue,
    /// The bounded queue of notifications to the control plane.
    notifications: NotificationQueue,
    /// The metronome.
    metronome: Metronome,
}

impl Processor {
    /// The control-facing model of the engine.
    pub closed spec fn spec_model(&self) -> EngineModel {
        EngineModel {
            tracks: track_models(self.tracks@),
            metronome_volume: self.metronome.spec_volume() as int,
            metronome_bpm: self.metronome.spec_bpm() as int,
            sound: self.sound_effect,
            sample_rate: self.sample_rate as int,
        }
    }

    /// The commands received and not yet applied.
    pub closed spec fn spec_pending(&self) -> Seq<Command> {
        self.commands@
    }

    /// The notifications published and not yet received.
    pub closed spec fn spec_notifications(&self) -> Seq<Notifications> {
        self.notifications@
    }

    /// The current timing state of the metronome.
    pub closed spec fn spec_time(&self) -> SampleTimeInfo {
        self.metronome.spec_time()
    }

    /// The engine's fixed sample rate.
    pub closed spec fn spec_sample_rate(&self) -> int {
        self.sample_rate as int
    }

    /// The mix buffer of the most recent callback.
    pub closed spec fn spec_output(&self) -> AudioBuffer {
        self.audio_out
    }

    /// The tracks, as full values.
    pub closed spec fn spec_tracks(&self) -> Seq<Track> {
        self.tracks@
    }

    /// The metronome's click audio of the most recent callback.
    pub closed spec fn spec_metronome_output(&self) -> AudioBuffer {
        self.metronome.spec_output()
    }

    /// The engine's event-sequence form of the most recent callback's
    /// raw event input.
    pub closed spec fn spec_event_input(&self) -> Seq<(u32, Seq<u8>)> {
        self.midi_input@
    }

    /// The well-formedness invariant of the whole engine.
    pub closed spec fn spec_wf(&self) -> bool {
        &&& self.sample_rate >= 2
        &&& self.metronome.spec_wf()
        &&& self.metronome.spec_time().sub_beat_den == 60 * self.sample_rate
        &&& forall|k: int| 0 <= k < self.tracks@.len() ==> (#[trigger] self.tracks@[k]).spec_wf()
        &&& self.sound_effect matches Some(t) ==> t.spec_wf()
        &&& self.empty_midi@.len() == 0
        &&& self.empty_midi.spec_wf()
        &&& self.midi_input.spec_wf()
        &&& self.audio_out.spec_wf()
        &&& self.audio_out.spec_channels() == 2
        &&& self.commands.spec_wf()
        &&& self.notifications.spec_wf()
    }

    /// Creates a new processor with no tracks, using the given click
    /// waveform for the metronome.
    pub fn new(sample_rate: u32, buffer_size: usize, click: Arc<AudioBuffer>) -> (r: Processor)
        requires
            sample_rate >= 2,
            2 * buffer_size <= usize::MAX,
            click.spec_wf(),
        ensures
            r.spec_wf(),
            r.spec_model().tracks.len() == 0,
            r.spec_model().metronome_volume == 0,
            r.spec_model().metronome_bpm == 120,
            r.spec_model().sound is None,
            r.spec_model().sample_rate == sample_rate,
            r.spec_pending().len() == 0,
            r.spec_notifications().len() == 0,
            r.spec_time() == crate::metronome::initial_time(sample_rate, 120),
            r.spec_output().spec_wf(),
            r.spec_output().spec_channels() == 2,
            r.spec_output().spec_buffer_size() == buffer_size,
            r.spec_output().all_zero(),
    {
        let r = Processor {
            tracks: Vec::new(),
            sound_effect: None,
            sample_rate,
            empty_midi: EventSequence::new(),
            midi_input: EventSequence::new(),
            audio_out: AudioBuffer::with_stereo(buffer_size),
            commands: CommandQueue::new(),
            notifications: NotificationQueue::new(),
            metronome: Metronome::new(sample_rate, buffer_size, click),
        };
        proof {
            assert(track_models(r.tracks@) =~= Seq::<TrackModel>::empty());
        }
        r
    }

    /// Sends a command from the control plane, without confirmation; a
    /// command sent onto a full queue is refused.
    pub fn send_command(&mut self, command: Command) -> (accepted: bool)
        requires
            old(self).spec_wf(),
            command.spec_wf(),
        ensures
            final(self).spec_wf(),
            accepted == (old(self).spec_pending().len() < commands::COMMAND_QUEUE_CAPACITY),
            accepted ==> final(self).spec_pending() == old(self).spec_pending().push(command),
            !accepted ==> final(self).spec_pending() == old(self).spec_pending(),
            final(self).spec_model() == old(self).spec_model(),
            final(self).spec_time() == old(self).spec_time(),
            final(self).spec_notifications() == old(self).spec_notifications(),
    {
        self.commands.send(command)
    }

    /// Receives the oldest pending notification, if any.
    pub fn poll_notification(&mut self) -> (r: Option<Notifications>)
        requires
            old(self).spec_wf(),
        ensures
            final(self).spec_wf(),
            old(self).spec_notifications().len() == 0 ==> r is None && final(self).spec_notifications() == old(self).spec_notifications(),
            old(self).spec_notifications().len() > 0 ==> r == Some(old(self).spec_notifications()[0])
                && final(self).spec_notifications() == old(self).spec_notifications().subrange(
                1,
                old(self).spec_notifications().len() as int,
            ),
            final(self).spec_model() == old(self).spec_model(),
            final(self).spec_pending() == old(self).spec_pending(),
            final(self).spec_time() == old(self).spec_time(),
    {
        self.notifications.poll()
    }

    /// The tracks the engine currently processes.
    pub fn tracks(&self) -> (r: &Vec<Track>)
        ensures
            track_models(r@) == self.spec_model().tracks,
    {
        &self.tracks
    }

    /// The mix buffer of the most recent callback.
    pub fn output(&self) -> (r: &AudioBuffer)
        ensures
            *r == self.spec_output(),
    {
        &self.audio_out
    }

    /// The current timing state.
    pub fn current_time_info(&self) -> (r: SampleTimeInfo)
        ensures
            r == self.spec_time(),
    {
        self.metronome.current_time_info()
    }


    /// Runs one processing callback: drains and applies every pending
    /// command in order, renders any active one-shot sound into the
    /// fresh mix buffer, advances the metronome by `samples` frames and
    /// mixes its click at its volume, processes every enabled track
    /// (the armed track reads the callback's event input, all others
    /// read silence) and mixes each at its volume, and finally
    /// publishes the resulting time info best-effort.  The one-shot
    /// sound renders concurrently with the normal mix, not exclusively.
    pub fn process<R: HostedRuntime>(
        &mut self,
        samples: usize,
        midi_input: &Vec<MidiEvent>,
        runtime: &mut R,
    )
        requires
            old(self).spec_wf(),
            2 * samples <= usize::MAX,
            samples <= u32::MAX,
        ensures
            final(self).spec_wf(),
            final(self).spec_pending().len() == 0,
            final(self).spec_sample_rate() == old(self).spec_sample_rate(),
            final(self).spec_output().spec_wf(),
            final(self).spec_output().spec_channels() == 2,
            final(self).spec_output().spec_buffer_size() == samples,
            track_models(final(self).spec_tracks()) == final(self).spec_model().tracks,
            ({
                let m1 = apply_commands(old(self).spec_model(), old(self).spec_pending());
                let m2 = final(self).spec_model();
                &&& final(self).spec_time() == crate::metronome::time_after(
                    old(self).spec_time(),
                    m1.metronome_bpm as u32,
                    samples as nat,
                )
                &&& m2.metronome_bpm == m1.metronome_bpm
                &&& m2.metronome_volume == m1.metronome_volume
                &&& m2.sample_rate == m1.sample_rate
                &&& m2.tracks.len() == m1.tracks.len()
                &&& forall|j: int|
                    0 <= j < m1.tracks.len() ==> {
                        let t2 = #[trigger] m2.tracks[j];
                        let t1 = m1.tracks[j];
                        &&& t2.id == t1.id
                        &&& t2.volume == t1.volume
                        &&& t2.armed == t1.armed
                        &&& t2.plugins.len() == t1.plugins.len()
                        &&& (t1.disabled ==> t2.disabled)
                    }
                &&& (m1.sound is None ==> m2.sound is None)
                &&& (m1.sound matches Some(tr) ==> {
                    let after = crate::plugin::trig_cursor(
                        tr.spec_wave(),
                        tr.spec_cursor(),
                        Seq::<(u32, Seq<u8>)>::empty(),
                        samples as nat,
                    );
                    &&& (m2.sound is None <==> after is None)
                    &&& (m2.sound matches Some(t2) ==> t2.spec_wave() == tr.spec_wave()
                        && t2.spec_cursor() == after)
                })
                &&& ((m1.tracks.len() == 0 && m1.sound is None && m1.metronome_volume == 0)
                    ==> final(self).spec_output().all_zero())
                &&& final(self).spec_event_input() == converted_events(midi_input@)
                &&& forall|j: int|
                    0 <= j < m1.tracks.len() ==> ((#[trigger] m1.tracks[j]).disabled
                        ==> m2.tracks[j] == m1.tracks[j])
                &&& forall|j: int|
                    0 <= j < m1.tracks.len() ==> ((!(#[trigger] m1.tracks[j]).disabled
                        && all_sample(m1.tracks[j].plugins)) ==> track_rendered(
                        m1.tracks[j],
                        final(self).spec_tracks()[j],
                        if m1.tracks[j].armed {
                            converted_events(midi_input@)
                        } else {
                            Seq::<(u32, Seq<u8>)>::empty()
                        },
                        samples as int,
                    ))
                &&& forall|c: int, i: int|
                    0 <= c < 2 && 0 <= i < samples ==> (#[trigger] final(self).spec_output().sample_at(c, i)) as int == spec_mix_fold(
                        spec_callback_base(
                            m1.sound,
                            final(self).spec_metronome_output(),
                            m1.metronome_volume,
                            c,
                            i,
                        ),
                        m1.tracks,
                        final(self).spec_tracks(),
                        c,
                        i,
                        m1.tracks.len() as int,
                    )
            }),
            ({
                let note = Notifications::TimeInfo(final(self).spec_time());
                if old(self).spec_notifications().len() < commands::NOTIFICATION_QUEUE_CAPACITY {
                    final(self).spec_notifications() == old(self).spec_notifications().push(note)
                } else {
                    final(self).spec_notifications() == old(self).spec_notifications()
                }
            }),
    {
        // 1. Drain and apply all pending commands, in FIFO order.
        self.handle_commands();
        let ghost m1 = self.spec_model();
        let ghost zero_case = m1.tracks.len() == 0 && m1.sound is None && m1.metronome_volume
            == 0;

        // 2. Reset the mix buffer, then render any active one-shot sound
        // into it; retire the sound once it falls silent.
        self.audio_out.reset_with_buffer_size(samples);
        let clear_sound = match &mut self.sound_effect {
            Some(effect) => {
                let r = effect.process(&self.empty_midi, &mut self.audio_out);
                proof {
                    assert(r is Ok);
                    assert(self.empty_midi@ =~= Seq::<(u32, Seq<u8>)>::empty());
                }
                !effect.is_active()
            },
            None => false,
        };
        if clear_sound {
            self.sound_effect = None;
        }
        proof {
            assert forall|c: int, i: int| 0 <= c < 2 && 0 <= i < samples implies (
            #[trigger] self.audio_out.sample_at(c, i)) as int == (match m1.sound {
                Some(tr) => trig_output(
                    tr.spec_wave(),
                    tr.spec_cursor(),
                    Seq::<(u32, Seq<u8>)>::empty(),
                    i,
                ) as int,
                None => 0int,
            }) by {}
        }

        // 3. Advance the metronome and mix its click at its volume.
        let metronome_volume = self.metronome.volume();
        self.metronome.process(samples);
        let ghost before_metro_mix = self.audio_out;
        self.audio_out.mix_from(self.metronome.output(), metronome_volume);
        let ghost metro_out = self.metronome.spec_output();
        proof {
            assert forall|c: int, i: int| 0 <= c < 2 && 0 <= i < samples implies (
            #[trigger] self.audio_out.sample_at(c, i)) as int == spec_callback_base(
                m1.sound,
                metro_out,
                m1.metronome_volume,
                c,
                i,
            ) by {}
            if zero_case {
                assert forall|c: int, i: int|
                    0 <= c < self.audio_out.spec_channels() && 0 <= i
                        < self.audio_out.spec_buffer_size() implies #[trigger] self.audio_out.sample_at(
                    c,
                    i,
                ) == 0i64 by {
                    crate::sample::lemma_scale_zero(
                        self.metronome.spec_output().sample_at(c, i) as int,
                    );
                }
            }
        }

        // 4. Convert the callback's raw event input once, shared by all
        // armed tracks.
        midi_events_to_sequence(&mut self.midi_input, midi_input);

        // 5. Process every enabled track and mix its output at its
        // volume.
        let ghost selfmid = *self;
        let tn: usize = self.tracks.len();
        let mut j: usize = 0;
        while j < tn
            invariant
                j <= tn,
                tn == self.tracks@.len(),
                tn == selfmid.tracks@.len(),
                2 * samples <= usize::MAX,
                self.metronome == selfmid.metronome,
                self.sound_effect == selfmid.sound_effect,
                self.sample_rate == selfmid.sample_rate,
                self.commands == selfmid.commands,
                self.notifications == selfmid.notifications,
                self.empty_midi == selfmid.empty_midi,
                self.midi_input == selfmid.midi_input,
                self.empty_midi@.len() == 0,
                self.empty_midi.spec_wf(),
                self.midi_input.spec_wf(),
                self.audio_out.spec_wf(),
                self.audio_out.spec_channels() == 2,
                self.audio_out.spec_buffer_size() == samples,
                forall|q: int|
                    0 <= q < tn ==> (#[trigger] self.tracks@[q]).spec_wf(),
                forall|q: int|
                    j <= q < tn ==> #[trigger] self.tracks@[q] == selfmid.tracks@[q],
                forall|q: int|
                    0 <= q < j ==> {
                        let t2 = (#[trigger] self.tracks@[q]).model();
                        let t1 = selfmid.tracks@[q].model();
                        &&& t2.id == t1.id
                        &&& t2.volume == t1.volume
                        &&& t2.armed == t1.armed
                        &&& t2.plugins.len() == t1.plugins.len()
                        &&& (t1.disabled ==> t2.disabled)
                    },
                track_models(selfmid.tracks@) == m1.tracks,
                m1.tracks.len() == tn,
                self.midi_input@ == converted_events(midi_input@),
                metro_out == selfmid.metronome.spec_output(),
                forall|q: int|
                    0 <= q < j ==> ((#[trigger] m1.tracks[q]).disabled ==> self.tracks@[q]
                        == selfmid.tracks@[q]),
                forall|q: int|
                    0 <= q < j ==> ((!(#[trigger] m1.tracks[q]).disabled && all_sample(
                        m1.tracks[q].plugins,
                    )) ==> track_rendered(
                        m1.tracks[q],
                        self.tracks@[q],
                        if m1.tracks[q].armed {
                            converted_events(midi_input@)
                        } else {
                            Seq::<(u32, Seq<u8>)>::empty()
                        },
                        samples as int,
                    )),
                forall|c: int, i: int|
                    0 <= c < 2 && 0 <= i < samples ==> (#[trigger] self.audio_out.sample_at(
                        c,
                        i,
                    )) as int == spec_mix_fold(
                        spec_callback_base(m1.sound, metro_out, m1.metronome_volume, c, i),
                        m1.tracks,
                        self.tracks@,
                        c,
                        i,
                        j as int,
                    ),
                zero_case ==> tn == 0,
                zero_case ==> self.audio_out.all_zero(),
            decreases tn - j,
        {
            let props = self.tracks[j].properties();
            proof {
                assert(m1.tracks[j as int] == selfmid.tracks@[j as int].model());
                assert(props == selfmid.tracks@[j as int].spec_properties());
            }
            if !props.disabled {
                let ghost tracks_before = self.tracks@;
                if props.armed {
                    let _ = (&mut self.tracks[j]).process(samples, &self.midi_input, runtime);
                } else {
                    proof {
                        assert(self.empty_midi@ =~= Seq::<(u32, Seq<u8>)>::empty());
                    }
                    let _ = (&mut self.tracks[j]).process(samples, &self.empty_midi, runtime);
                }
                let volume = props.volume;
                let ghost audio_before = self.audio_out;
                self.audio_out.mix_from(self.tracks[j].output(), volume);
                proof {
                    if all_sample(m1.tracks[j as int].plugins) {
                        assert(track_rendered(
                            m1.tracks[j as int],
                            self.tracks@[j as int],
                            if m1.tracks[j as int].armed {
                                converted_events(midi_input@)
                            } else {
                                Seq::<(u32, Seq<u8>)>::empty()
                            },
                            samples as int,
                        ));
                    }
                    assert forall|c: int, i: int| 0 <= c < 2 && 0 <= i < samples implies (
                    #[trigger] self.audio_out.sample_at(c, i)) as int == spec_mix_fold(
                        spec_callback_base(m1.sound, metro_out, m1.metronome_volume, c, i),
                        m1.tracks,
                        self.tracks@,
                        c,
                        i,
                        j + 1,
                    ) by {
                        lemma_mix_fold_prefix(
                            spec_callback_base(m1.sound, metro_out, m1.metronome_volume, c, i),
                            m1.tracks,
                            tracks_before,
                            self.tracks@,
                            c,
                            i,
                            j as int,
                        );
                        assert(audio_before.sample_at(c, i) as int == spec_mix_fold(
                            spec_callback_base(m1.sound, metro_out, m1.metronome_volume, c, i),
                            m1.tracks,
                            self.tracks@,
                            c,
                            i,
                            j as int,
                        ));
                        assert(self.tracks@[j as int].spec_properties().volume == volume);
                    }
                }
            } else {
                proof {
                    assert forall|c: int, i: int| 0 <= c < 2 && 0 <= i < samples implies (
                    #[trigger] self.audio_out.sample_at(c, i)) as int == spec_mix_fold(
                        spec_callback_base(m1.sound, metro_out, m1.metronome_volume, c, i),
                        m1.tracks,
                        self.tracks@,
                        c,
                        i,
                        j + 1,
                    ) by {}
                }
            }
            j = j + 1;
        }

        // 6. Publish the resulting time info, best-effort.
        let info = self.metronome.current_time_info();
        self.notifications.try_send(Notifications::TimeInfo(info));
        proof {
            assert(final(self).spec_model().tracks =~= track_models(self.tracks@));
            assert(final(self).spec_metronome_output() == metro_out);
            assert forall|jq: int|
                0 <= jq < m1.tracks.len() implies ((#[trigger] m1.tracks[jq]).disabled
                ==> final(self).spec_model().tracks[jq] == m1.tracks[jq]) by {
                if m1.tracks[jq].disabled {
                    assert(self.tracks@[jq] == selfmid.tracks@[jq]);
                    assert(final(self).spec_model().tracks[jq] == self.tracks@[jq].model());
                }
            }
        }
    }

    /// Drains the command queue to exhaustion and applies every pending
    /// command, strictly in arrival order, each exactly once.
    fn handle_commands(&mut self)
        requires
            old(self).spec_wf(),
        ensures
            final(self).spec_wf(),
            final(self).spec_model() == apply_commands(
                old(self).spec_model(),
                old(self).spec_pending(),
            ),
            final(self).spec_pending().len() == 0,
            final(self).spec_time() == old(self).spec_time(),
            final(self).spec_notifications() == old(self).spec_notifications(),
            final(self).spec_sample_rate() == old(self).spec_sample_rate(),
    {
        let mut cmds: Vec<Command> = self.commands.take_all();
        let ghost all = cmds@;
        let ghost m0 = self.spec_model();
        let n: usize = cmds.len();
        while cmds.len() > 0
            invariant
                self.spec_wf(),
                all.len() == n,
                cmds@.len() <= n,
                cmds@ =~= all.subrange((n - cmds@.len()) as int, n as int),
                forall|k: int| 0 <= k < all.len() ==> (#[trigger] all[k]).spec_wf(),
                self.spec_model() == apply_commands(
                    m0,
                    all.subrange(0, (n - cmds@.len()) as int),
                ),
                self.spec_pending().len() == 0,
                self.spec_time() == old(self).spec_time(),
                self.spec_notifications() == old(self).spec_notifications(),
                self.spec_sample_rate() == old(self).spec_sample_rate(),
                self.spec_sample_rate() == m0.sample_rate,
            decreases cmds@.len(),
        {
            let ghost consumed = (n - cmds@.len()) as int;
            let ghost mprev = self.spec_model();
            let cmd = cmds.remove(0);
            let ghost cmdg = cmd;
            proof {
                assert(cmdg == all[consumed]);
                assert(cmdg.spec_wf());
            }
            match cmd {
                Command::AddTrack(track) => {
                    let ghost before = self.tracks@;
                    self.tracks.push(track);
                    proof {
                        assert(track_models(self.tracks@) =~= track_models(before).push(
                            track.model(),
                        ));
                        assert(self.spec_model() =~= apply_command(mprev, cmdg));
                    }
                },
                Command::DeleteTrack(id) => {
                    let mut pending_tracks: Vec<Track> = Vec::new();
                    core::mem::swap(&mut self.tracks, &mut pending_tracks);
                    let ghost selfpre = *self;
                    let ghost orig = pending_tracks@;
                    let on: usize = pending_tracks.len();
                    let mut moved: usize = 0;
                    while pending_tracks.len() > 0
                        invariant
                            self.metronome == selfpre.metronome,
                            self.sound_effect == selfpre.sound_effect,
                            self.sample_rate == selfpre.sample_rate,
                            self.commands == selfpre.commands,
                            self.notifications == selfpre.notifications,
                            self.empty_midi == selfpre.empty_midi,
                            self.midi_input == selfpre.midi_input,
                            self.audio_out == selfpre.audio_out,
                            moved + pending_tracks@.len() == on,
                            orig.len() == on,
                            pending_tracks@ =~= orig.subrange(moved as int, on as int),
                            forall|q: int|
                                0 <= q < orig.len() ==> (#[trigger] orig[q]).spec_wf(),
                            forall|q: int|
                                0 <= q < self.tracks@.len() ==> (#[trigger] self.tracks@[
                                    q]).spec_wf(),
                            track_models(self.tracks@) =~= without_id(
                                track_models(orig.subrange(0, moved as int)),
                                id as int,
                            ),
                        decreases pending_tracks@.len(),
                    {
                        let ghost kept_before = self.tracks@;
                        let t = pending_tracks.remove(0);
                        proof {
                            assert(t == orig[moved as int]);
                        }
                        let keep = t.id() != id;
                        if keep {
                            self.tracks.push(t);
                        }
                        moved = moved + 1;
                        proof {
                            let pfx = track_models(orig.subrange(0, moved as int));
                            assert(orig.subrange(0, moved as int).drop_last() =~= orig.subrange(
                                0,
                                moved as int - 1,
                            ));
                            assert(pfx.drop_last() =~= track_models(
                                orig.subrange(0, moved as int - 1),
                            ));
                            assert(pfx.last() == orig[moved as int - 1].model());
                            if keep {
                                assert(track_models(self.tracks@) =~= track_models(
                                    kept_before,
                                ).push(orig[moved as int - 1].model()));
                            }
                            assert(track_models(self.tracks@) =~= without_id(pfx, id as int));
                        }
                    }
                    proof {
                        assert(orig.subrange(0, on as int) =~= orig);
                        assert(track_models(orig) =~= mprev.tracks);
                        assert(track_models(self.tracks@) =~= without_id(
                            track_models(orig),
                            id as int,
                        ));
                        assert(without_id(track_models(orig), id as int) == without_id(
                            mprev.tracks,
                            id as int,
                        ));
                        assert(self.spec_model() =~= apply_command(mprev, cmdg));
                    }
                },
                Command::AddPluginToTrack(id, plugin) => {
                    let found = find_track_index(&self.tracks, id);
                    match found {
                        Some(kk) => {
                            let ghost before = self.tracks@;
                            (&mut self.tracks[kk]).push_plugin(plugin);
                            proof {
                                assert(track_models(self.tracks@) =~= track_models(
                                    before,
                                ).update(
                                    kk as int,
                                    TrackModel {
                                        plugins: before[kk as int].model().plugins.push(plugin),
                                        ..before[kk as int].model()
                                    },
                                ));
                                assert(self.spec_model() =~= apply_command(mprev, cmdg));
                            }
                        },
                        None => {
                            proof {
                                assert(self.spec_model() =~= apply_command(mprev, cmdg));
                            }
                        },
                    }
                },
                Command::DeletePlugin(id, idx) => {
                    let found = find_track_index(&self.tracks, id);
                    match found {
                        Some(kk) => {
                            let ghost before = self.tracks@;
                            let _removed = (&mut self.tracks[kk]).remove_plugin(idx);
                            proof {
                                if idx < before[kk as int].model().plugins.len() {
                                    assert(track_models(self.tracks@) =~= track_models(
                                        before,
                                    ).update(
                                        kk as int,
                                        TrackModel {
                                            plugins: before[kk as int].model().plugins.remove(
                                                idx as int,
                                            ),
                                            ..before[kk as int].model()
                                        },
                                    ));
                                } else {
                                    assert(track_models(self.tracks@) =~= track_models(before));
                                }
                                assert(self.spec_model() =~= apply_command(mprev, cmdg));
                            }
                        },
                        None => {
                            proof {
                                assert(self.spec_model() =~= apply_command(mprev, cmdg));
                            }
                        },
                    }
                },
                Command::SetMetronome { volume, beats_per_minute } => {
                    proof {
                        self.metronome.lemma_wf_time();
                    }
                    let bpm = if beats_per_minute as u64 <= 60 * (self.sample_rate as u64) {
                        beats_per_minute
                    } else {
                        self.metronome.bpm()
                    };
                    self.metronome.set_properties(self.sample_rate, volume, bpm);
                    proof {
                        assert(self.spec_time() == old(self).spec_time());
                        assert(track_models(self.tracks@) =~= mprev.tracks);
                        assert(self.spec_model() =~= apply_command(mprev, cmdg));
                    }
                },
                Command::ArmTrack(id) => {
                    let ghost selfpre = *self;
                    let ghost before = self.tracks@;
                    let tn: usize = self.tracks.len();
                    let mut j: usize = 0;
                    while j < tn
                        invariant
                            self.metronome == selfpre.metronome,
                            self.sound_effect == selfpre.sound_effect,
                            self.sample_rate == selfpre.sample_rate,
                            self.commands == selfpre.commands,
                            self.notifications == selfpre.notifications,
                            self.empty_midi == selfpre.empty_midi,
                            self.midi_input == selfpre.midi_input,
                            self.audio_out == selfpre.audio_out,
                            j <= tn,
                            tn == self.tracks@.len(),
                            before.len() == tn,
                            forall|q: int|
                                j <= q < tn ==> #[trigger] self.tracks@[q] == before[q],
                            forall|q: int|
                                0 <= q < tn ==> (#[trigger] self.tracks@[q]).spec_wf() == (
                                before[q]).spec_wf(),
                            forall|q: int|
                                0 <= q < j ==> #[trigger] self.tracks@[q].model()
                                    == (TrackModel {
                                    armed: before[q].model().id == id as int,
                                    ..before[q].model()
                                }),
                            forall|q: int|
                                0 <= q < before.len() ==> (#[trigger] before[q]).spec_wf(),
                        decreases tn - j,
                    {
                        let armed = self.tracks[j].id() == id;
                        (&mut self.tracks[j]).set_armed(armed);
                        j = j + 1;
                    }
                    proof {
                        assert(track_models(self.tracks@) =~= armed_exactly(
                            track_models(before),
                            id as int,
                        ));
                        assert(self.spec_model() =~= apply_command(mprev, cmdg));
                    }
                },
                Command::PlaySound(effect) => {
                    self.sound_effect = Some(effect);
                    proof {
                        assert(track_models(self.tracks@) =~= mprev.tracks);
                        assert(self.spec_model() =~= apply_command(mprev, cmdg));
                    }
                },
            }
            proof {
                let pfx = all.subrange(0, consumed + 1);
                assert(pfx.drop_last() =~= all.subrange(0, consumed));
                assert(pfx.last() == cmdg);
                assert(self.spec_model() == apply_commands(m0, pfx));
                assert(cmds@ =~= all.subrange(consumed + 1, n as int));
            }
        }
        proof {
            assert(all.subrange(0, n as int) =~= all);
        }
    }
}


/// The engine's internal event-sequence representation of the
/// callback's raw event input: events in frame order, each at most four
/// bytes; an oversized or out-of-order event is dropped.
pub open spec fn converted_events(input: Seq<MidiEvent>) -> Seq<(u32, Seq<u8>)>
    decreases input.len(),
{
    if input.len() == 0 {
        Seq::empty()
    } else {
        let rest = converted_events(input.drop_last());
        let e = input.last();
        if e.data@.len() <= 4 && (rest.len() == 0 || e.frame >= rest.last().0) {
            rest.push((e.frame, e.data@))
        } else {
            rest
        }
    }
}

/// Copies a byte vector.
fn copy_bytes(v: &Vec<u8>) -> (r: Vec<u8>)
    ensures
        r@ == v@,
{
    let mut r: Vec<u8> = Vec::new();
    let mut j: usize = 0;
    let n: usize = v.len();
    while j < n
        invariant
            j <= n,
            n == v@.len(),
            r@ =~= v@.subrange(0, j as int),
        decreases n - j,
    {
        r.push(v[j]);
        j = j + 1;
    }
    proof {
        assert(r@ =~= v@);
    }
    r
}

/// Resets `seq` to the engine's representation of the raw event input.
fn midi_events_to_sequence(seq: &mut EventSequence, input: &Vec<MidiEvent>)
    requires
        old(seq).spec_wf(),
    ensures
        final(seq).spec_wf(),
        final(seq)@ == converted_events(input@),
{
    seq.clear();
    let n: usize = input.len();
    let mut k: usize = 0;
    while k < n
        invariant
            k <= n,
            n == input@.len(),
            seq.spec_wf(),
            seq@ == converted_events(input@.subrange(0, k as int)),
        decreases n - k,
    {
        let ghost prefix = input@.subrange(0, k as int);
        if input[k].data.len() <= 4 {
            let data = copy_bytes(&input[k].data);
            let _ = seq.push(input[k].frame, data);
        }
        proof {
            let pfx2 = input@.subrange(0, k + 1);
            assert(pfx2.drop_last() =~= prefix);
            assert(pfx2.last() == input@[k as int]);
        }
        k = k + 1;
    }
    proof {
        assert(input@.subrange(0, n as int) =~= input@);
    }
}

/// Finds the index of the first track with the given id.
fn find_track_index(tracks: &Vec<Track>, id: i32) -> (r: Option<usize>)
    ensures
        match r {
            Some(k) => k < tracks@.len() && find_track(track_models(tracks@), id as int)
                == k && track_models(tracks@)[k as int].id == id,
            None => find_track(track_models(tracks@), id as int) == -1,
        },
{
    let n: usize = tracks.len();
    let mut j: usize = 0;
    while j < n
        invariant
            j <= n,
            n == tracks@.len(),
            forall|q: int| 0 <= q < j ==> (#[trigger] track_models(tracks@)[q]).id != id,
        decreases n - j,
    {
        if tracks[j].id() == id {
            proof {
                lemma_find_track_some(track_models(tracks@), id as int, j as int);
            }
            return Some(j);
        }
        j = j + 1;
    }
    proof {
        lemma_find_track_none(track_models(tracks@), id as int);
    }
    None
}

} // verus!
