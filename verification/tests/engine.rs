//! End-to-end tests for tracks, plugin instances and the processor.

use std::sync::Arc;

use mini_leebee::audio_buffer::AudioBuffer;
use mini_leebee::commands::{Command, Notifications};
use mini_leebee::events::{EventSequence, MidiEvent};
use mini_leebee::plugin::{
    HostedPlugin, HostedRuntime, PluginInstance, PluginProcessError, SampleTrigger,
    UnavailableRuntime,
};
use mini_leebee::sample::SAMPLE_UNIT;
use mini_leebee::track::Track;
use mini_leebee::Processor;

fn mono(samples: Vec<i64>) -> Arc<AudioBuffer> {
    Arc::new(AudioBuffer::from_mono_samples(samples))
}

fn note_on(frame: u32) -> MidiEvent {
    MidiEvent { frame, data: vec![0x90, 69, 100] }
}

/// A hosted runtime that renders a constant marker sample.
struct MarkerRuntime;

impl HostedRuntime for MarkerRuntime {
    fn run(
        &mut self,
        _plugin: &HostedPlugin,
        _midi: &EventSequence,
        _input: &AudioBuffer,
        samples: usize,
    ) -> Result<AudioBuffer, PluginProcessError> {
        let mut out = AudioBuffer::with_stereo(samples);
        out.set_sample(0, 0, 4242);
        Ok(out)
    }
}

fn hosted() -> PluginInstance {
    PluginInstance::Hosted(HostedPlugin {
        module_id: 1,
        audio_inputs: 2,
        audio_outputs: 2,
        atom_sequence_inputs: 1,
    })
}

#[test]
fn trigger_plays_waveform_once_per_note_on() {
    let mut trigger = SampleTrigger::new(mono(vec![100, 200, 300]));
    assert!(!trigger.is_active());
    let mut events = EventSequence::new();
    assert!(events.push(0, vec![0x90, 69, 100]));
    let mut out = AudioBuffer::with_stereo(5);
    trigger.process(&events, &mut out).unwrap();
    assert!(!trigger.is_active());
    for c in 0..2 {
        assert_eq!(out.sample(c, 0), 100);
        assert_eq!(out.sample(c, 1), 200);
        assert_eq!(out.sample(c, 2), 300);
        assert_eq!(out.sample(c, 3), 0);
        assert_eq!(out.sample(c, 4), 0);
    }
}

#[test]
fn trigger_restarts_on_a_later_note_on() {
    let mut trigger = SampleTrigger::new(mono(vec![100, 200, 300]));
    let mut events = EventSequence::new();
    assert!(events.push(0, vec![0x90, 69, 100]));
    assert!(events.push(2, vec![0x90, 69, 1]));
    let mut out = AudioBuffer::with_stereo(5);
    trigger.process(&events, &mut out).unwrap();
    assert_eq!(out.sample(0, 0), 100);
    assert_eq!(out.sample(0, 1), 200);
    assert_eq!(out.sample(0, 2), 100);
    assert_eq!(out.sample(0, 3), 200);
    assert_eq!(out.sample(0, 4), 300);
}

#[test]
fn trigger_ignores_note_off_and_other_messages() {
    let mut trigger = SampleTrigger::new(mono(vec![100]));
    let mut events = EventSequence::new();
    // A zero velocity denotes a note-off, and a control change is not a
    // note at all.
    assert!(events.push(0, vec![0x90, 69, 0]));
    assert!(events.push(1, vec![0xb0, 7, 100]));
    let mut out = AudioBuffer::with_stereo(3);
    trigger.process(&events, &mut out).unwrap();
    for i in 0..3 {
        assert_eq!(out.sample(0, i), 0);
    }
    assert!(!trigger.is_active());
}

#[test]
fn trigger_start_plays_without_events() {
    let mut trigger = SampleTrigger::new(mono(vec![7, 8]));
    trigger.start();
    assert!(trigger.is_active());
    let empty = EventSequence::new();
    let mut out = AudioBuffer::with_stereo(1);
    trigger.process(&empty, &mut out).unwrap();
    assert_eq!(out.sample(0, 0), 7);
    assert!(trigger.is_active());
    let mut out2 = AudioBuffer::with_stereo(2);
    trigger.process(&empty, &mut out2).unwrap();
    assert_eq!(out2.sample(0, 0), 8);
    assert!(!trigger.is_active());
}

#[test]
fn event_sequence_refuses_out_of_order_pushes() {
    let mut events = EventSequence::new();
    assert!(events.push(5, vec![0x90, 69, 100]));
    assert!(events.push(5, vec![0x90, 69, 100]));
    assert!(!events.push(3, vec![0x90, 69, 100]));
    assert_eq!(events.len(), 2);
}

#[test]
fn empty_track_renders_silence() {
    let mut track = Track::new(1, 16);
    let events = EventSequence::new();
    let mut runtime = UnavailableRuntime;
    track.process(64, &events, &mut runtime);
    let out = track.output();
    assert_eq!(out.channels(), 2);
    assert_eq!(out.buffer_size(), 64);
    for c in 0..2 {
        for i in 0..64 {
            assert_eq!(out.sample(c, i), 0);
        }
    }
    assert!(!track.properties().disabled);
}

#[test]
fn failing_plugin_disables_the_track() {
    let mut track = Track::new(1, 16);
    track.push_plugin(hosted());
    assert!(!track.properties().disabled);
    let events = EventSequence::new();
    let mut runtime = UnavailableRuntime;
    track.process(16, &events, &mut runtime);
    assert!(track.properties().disabled);
}

#[test]
fn hosted_plugin_renders_through_the_runtime() {
    let mut track = Track::new(1, 16);
    track.push_plugin(hosted());
    let events = EventSequence::new();
    let mut runtime = MarkerRuntime;
    track.process(16, &events, &mut runtime);
    assert!(!track.properties().disabled);
    assert_eq!(track.output().sample(0, 0), 4242);
    assert_eq!(track.output().sample(0, 1), 0);
}

#[test]
fn track_remove_plugin_checks_the_index() {
    let mut track = Track::new(1, 8);
    track.push_plugin(hosted());
    assert!(track.remove_plugin(1).is_none());
    assert!(track.remove_plugin(0).is_some());
    assert!(track.remove_plugin(0).is_none());
}

#[test]
fn commands_apply_in_order_and_exactly_once() {
    let mut p = Processor::new(48000, 64, mono(vec![SAMPLE_UNIT]));
    assert!(p.send_command(Command::AddTrack(Track::new(1, 64))));
    assert!(p.send_command(Command::AddTrack(Track::new(2, 64))));
    assert!(p.send_command(Command::DeleteTrack(1)));
    let midi: Vec<MidiEvent> = Vec::new();
    let mut runtime = UnavailableRuntime;
    p.process(64, &midi, &mut runtime);
    let ids: Vec<i32> = p.tracks().iter().map(|t| t.id()).collect();
    assert_eq!(ids, vec![2]);
    // Draining again without new commands changes nothing.
    p.process(64, &midi, &mut runtime);
    let ids: Vec<i32> = p.tracks().iter().map(|t| t.id()).collect();
    assert_eq!(ids, vec![2]);
}

#[test]
fn arming_a_track_disarms_the_others() {
    let mut p = Processor::new(48000, 64, mono(vec![SAMPLE_UNIT]));
    for id in [1, 2, 3] {
        assert!(p.send_command(Command::AddTrack(Track::new(id, 64))));
    }
    assert!(p.send_command(Command::ArmTrack(2)));
    let midi: Vec<MidiEvent> = Vec::new();
    let mut runtime = UnavailableRuntime;
    p.process(64, &midi, &mut runtime);
    let armed: Vec<bool> = p.tracks().iter().map(|t| t.properties().armed).collect();
    assert_eq!(armed, vec![false, true, false]);
    assert!(p.send_command(Command::ArmTrack(3)));
    p.process(64, &midi, &mut runtime);
    let armed: Vec<bool> = p.tracks().iter().map(|t| t.properties().armed).collect();
    assert_eq!(armed, vec![false, false, true]);
}

#[test]
fn end_to_end_triggered_sample_render() {
    // Engine at 48 kHz with 64-frame buffers, one armed track holding a
    // triggered sample, at half volume, with the metronome muted.
    let mut p = Processor::new(48000, 64, mono(vec![SAMPLE_UNIT]));
    assert!(p.send_command(Command::AddTrack(Track::new(1, 64))));
    let wave = mono(vec![SAMPLE_UNIT / 2, -SAMPLE_UNIT / 2, SAMPLE_UNIT / 4]);
    let instance = PluginInstance::Sample(SampleTrigger::new(wave));
    assert!(p.send_command(Command::AddPluginToTrack(1, instance)));
    assert!(p.send_command(Command::ArmTrack(1)));
    let midi = vec![note_on(0)];
    let mut runtime = UnavailableRuntime;
    p.process(64, &midi, &mut runtime);
    let out = p.output();
    assert_eq!(out.channels(), 2);
    assert_eq!(out.buffer_size(), 64);
    for c in 0..2 {
        assert_eq!(out.sample(c, 0), SAMPLE_UNIT / 4);
        assert_eq!(out.sample(c, 1), -SAMPLE_UNIT / 4);
        assert_eq!(out.sample(c, 2), SAMPLE_UNIT / 8);
        for i in 3..64 {
            assert_eq!(out.sample(c, i), 0);
        }
    }
}

#[test]
fn disarmed_tracks_read_silence() {
    let mut p = Processor::new(48000, 64, mono(vec![SAMPLE_UNIT]));
    assert!(p.send_command(Command::AddTrack(Track::new(1, 64))));
    let wave = mono(vec![SAMPLE_UNIT / 2]);
    let instance = PluginInstance::Sample(SampleTrigger::new(wave));
    assert!(p.send_command(Command::AddPluginToTrack(1, instance)));
    let midi = vec![note_on(0)];
    let mut runtime = UnavailableRuntime;
    p.process(64, &midi, &mut runtime);
    let out = p.output();
    for i in 0..64 {
        assert_eq!(out.sample(0, i), 0);
    }
}

#[test]
fn metronome_click_lands_on_the_first_frame() {
    let mut p = Processor::new(48000, 64, mono(vec![SAMPLE_UNIT]));
    assert!(p.send_command(Command::SetMetronome {
        volume: SAMPLE_UNIT,
        beats_per_minute: 120,
    }));
    let midi: Vec<MidiEvent> = Vec::new();
    let mut runtime = UnavailableRuntime;
    p.process(64, &midi, &mut runtime);
    let out = p.output();
    assert_eq!(out.sample(0, 0), SAMPLE_UNIT);
    assert_eq!(out.sample(1, 0), SAMPLE_UNIT);
    assert_eq!(out.sample(0, 1), 0);
}

#[test]
fn time_info_is_published_best_effort() {
    let mut p = Processor::new(48000, 64, mono(vec![SAMPLE_UNIT]));
    let midi: Vec<MidiEvent> = Vec::new();
    let mut runtime = UnavailableRuntime;
    p.process(64, &midi, &mut runtime);
    let info = p.current_time_info();
    match p.poll_notification() {
        Some(Notifications::TimeInfo(t)) => assert_eq!(t, info),
        _ => panic!("expected a time info notification"),
    }
    assert!(p.poll_notification().is_none());
}

#[test]
fn one_shot_sound_renders_and_retires() {
    let mut p = Processor::new(48000, 4, mono(vec![SAMPLE_UNIT]));
    let mut effect = SampleTrigger::new(mono(vec![11, 22]));
    effect.start();
    assert!(p.send_command(Command::PlaySound(effect)));
    let midi: Vec<MidiEvent> = Vec::new();
    let mut runtime = UnavailableRuntime;
    p.process(4, &midi, &mut runtime);
    let out = p.output();
    assert_eq!(out.sample(0, 0), 11);
    assert_eq!(out.sample(0, 1), 22);
    assert_eq!(out.sample(0, 2), 0);
    // The waveform was exhausted within the callback, so the effect is
    // retired and the next callback is silent.
    p.process(4, &midi, &mut runtime);
    let out = p.output();
    assert_eq!(out.sample(0, 0), 0);
    assert_eq!(out.sample(0, 1), 0);
}

#[test]
fn unknown_entities_are_silent_no_ops() {
    let mut p = Processor::new(48000, 64, mono(vec![SAMPLE_UNIT]));
    assert!(p.send_command(Command::AddTrack(Track::new(1, 64))));
    let wave = mono(vec![1]);
    assert!(p.send_command(Command::AddPluginToTrack(
        9,
        PluginInstance::Sample(SampleTrigger::new(wave)),
    )));
    assert!(p.send_command(Command::DeletePlugin(1, 5)));
    assert!(p.send_command(Command::DeleteTrack(42)));
    let midi: Vec<MidiEvent> = Vec::new();
    let mut runtime = UnavailableRuntime;
    p.process(64, &midi, &mut runtime);
    let ids: Vec<i32> = p.tracks().iter().map(|t| t.id()).collect();
    assert_eq!(ids, vec![1]);
}

#[test]
fn command_queue_refuses_overflow() {
    let mut p = Processor::new(48000, 4, mono(vec![1]));
    for _ in 0..1024 {
        assert!(p.send_command(Command::ArmTrack(1)));
    }
    assert!(!p.send_command(Command::ArmTrack(1)));
    // Draining makes room again.
    let midi: Vec<MidiEvent> = Vec::new();
    let mut runtime = UnavailableRuntime;
    p.process(4, &midi, &mut runtime);
    assert!(p.send_command(Command::ArmTrack(1)));
}

#[test]
fn zero_tempo_stops_the_metronome_and_still_applies_volume() {
    let mut p = Processor::new(48000, 64, mono(vec![SAMPLE_UNIT]));
    let start = p.current_time_info();
    assert!(p.send_command(Command::SetMetronome {
        volume: SAMPLE_UNIT,
        beats_per_minute: 0,
    }));
    let midi: Vec<MidiEvent> = Vec::new();
    let mut runtime = UnavailableRuntime;
    p.process(100, &midi, &mut runtime);
    // The accumulator is stopped: no tick, no click, time frozen.
    assert_eq!(p.current_time_info(), start);
    for i in 0..100 {
        assert_eq!(p.output().sample(0, i), 0);
    }
    // Restarting the tempo ticks on the next frame, at the volume the
    // zero-tempo command already applied.
    assert!(p.send_command(Command::SetMetronome {
        volume: SAMPLE_UNIT,
        beats_per_minute: 120,
    }));
    p.process(4, &midi, &mut runtime);
    assert_eq!(p.output().sample(0, 0), SAMPLE_UNIT);
    let t = p.current_time_info();
    assert_eq!((t.measure, t.beat), (0, 0));
}

#[test]
fn unrepresentable_tempo_keeps_the_tempo_but_applies_the_volume() {
    let mut p = Processor::new(48000, 64, mono(vec![SAMPLE_UNIT]));
    // Above one beat per frame the rational accumulator cannot follow:
    // the tempo stays at its previous value, the volume still applies.
    assert!(p.send_command(Command::SetMetronome {
        volume: SAMPLE_UNIT,
        beats_per_minute: u32::MAX,
    }));
    let midi: Vec<MidiEvent> = Vec::new();
    let mut runtime = UnavailableRuntime;
    p.process(4, &midi, &mut runtime);
    // The 120 bpm default ticked on frame 0 and the click is audible at
    // the newly applied volume.
    assert_eq!(p.output().sample(0, 0), SAMPLE_UNIT);
    let t = p.current_time_info();
    assert_eq!((t.measure, t.beat), (0, 0));
    assert_eq!(t.sub_beat_den, 60 * 48000);
}
