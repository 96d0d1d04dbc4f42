//! Tests for the control plane's mirrored snapshot of the engine.

use std::collections::HashSet;
use std::sync::Arc;

use mini_leebee::audio_buffer::AudioBuffer;
use mini_leebee::commands::Command;
use mini_leebee::plugin::{HostedPlugin, PluginInstance, SampleTrigger, UnavailableRuntime};
use mini_leebee::state::{Metronome, State, StateError};
use mini_leebee::state::replace_if_default;
use mini_leebee::events::MidiEvent;
use mini_leebee::Processor;

fn beep() -> SampleTrigger {
    SampleTrigger::new(Arc::new(AudioBuffer::from_mono_samples(vec![500])))
}

fn hosted_instance() -> PluginInstance {
    PluginInstance::Hosted(HostedPlugin {
        module_id: 3,
        audio_inputs: 2,
        audio_outputs: 2,
        atom_sequence_inputs: 1,
    })
}

#[test]
fn create_track_assigns_sequential_ids() {
    let mut state = State::new(64, beep());
    let (id1, cmd1) = state.create_track(String::from("Drums"));
    let (id2, _cmd2) = state.create_track(String::from("Keys"));
    assert_eq!(id1, 1);
    assert_eq!(id2, 2);
    assert!(matches!(cmd1, Command::AddTrack(_)));
    let tracks = state.tracks();
    assert_eq!(tracks.len(), 2);
    assert_eq!(tracks[0].name, "Drums");
    assert_eq!(tracks[1].id, 2);
}

#[test]
fn delete_tracks_removes_only_existing_requests() {
    let mut state = State::new(64, beep());
    state.create_track(String::from("a"));
    state.create_track(String::from("b"));
    state.create_track(String::from("c"));
    let mut ids = HashSet::new();
    ids.insert(1);
    ids.insert(3);
    ids.insert(99);
    let commands = state.delete_tracks(ids);
    assert_eq!(commands.len(), 2);
    assert!(matches!(commands[0], Command::DeleteTrack(1)));
    assert!(matches!(commands[1], Command::DeleteTrack(3)));
    let tracks = state.tracks();
    assert_eq!(tracks.len(), 1);
    assert_eq!(tracks[0].id, 2);
}

#[test]
fn add_plugin_requires_an_existing_track() {
    let mut state = State::new(64, beep());
    let r = state.add_plugin_to_track(5, String::from("lv2:urn:test"), hosted_instance());
    assert!(matches!(r, Err(StateError::TrackNotFound(5))));
    state.create_track(String::from("a"));
    let r = state.add_plugin_to_track(1, String::from("lv2:urn:test"), hosted_instance());
    assert!(matches!(r, Ok(Command::AddPluginToTrack(1, _))));
    assert_eq!(state.tracks()[0].plugins.len(), 1);
    assert_eq!(state.tracks()[0].plugins[0].plugin_id, "lv2:urn:test");
}

#[test]
fn remove_plugin_checks_track_and_index() {
    let mut state = State::new(64, beep());
    state.create_track(String::from("a"));
    let r = state.remove_plugin_from_track(1, 0);
    assert!(matches!(r, Err(StateError::PluginIndexOutOfRange(1, 0))));
    let r = state.remove_plugin_from_track(7, 0);
    assert!(matches!(r, Err(StateError::TrackNotFound(7))));
    state
        .add_plugin_to_track(1, String::from("lv2:urn:test"), hosted_instance())
        .unwrap();
    let r = state.remove_plugin_from_track(1, 0);
    assert!(matches!(r, Ok(Command::DeletePlugin(1, 0))));
    assert_eq!(state.tracks()[0].plugins.len(), 0);
}

#[test]
fn arming_one_mirrored_track_disarms_the_rest() {
    let mut state = State::new(64, beep());
    state.create_track(String::from("a"));
    state.create_track(String::from("b"));
    state.create_track(String::from("c"));
    let r = state.set_track_properties(2, true);
    assert!(matches!(r, Ok(Some(Command::ArmTrack(2)))));
    let armed: Vec<bool> = state.tracks().iter().map(|t| t.properties.armed).collect();
    assert_eq!(armed, vec![false, true, false]);
    let r = state.set_track_properties(3, true);
    assert!(matches!(r, Ok(Some(Command::ArmTrack(3)))));
    let armed: Vec<bool> = state.tracks().iter().map(|t| t.properties.armed).collect();
    assert_eq!(armed, vec![false, false, true]);
    // Requesting the current armed value changes nothing and sends
    // nothing.
    let r = state.set_track_properties(3, true);
    assert!(matches!(r, Ok(None)));
    // Disarming targets the reserved id, which no track carries.
    let r = state.set_track_properties(3, false);
    assert!(matches!(r, Ok(Some(Command::ArmTrack(-1)))));
    let armed: Vec<bool> = state.tracks().iter().map(|t| t.properties.armed).collect();
    assert_eq!(armed, vec![false, false, false]);
}

#[test]
fn set_armed_records_the_armed_track() {
    let mut state = State::new(64, beep());
    state.create_track(String::from("a"));
    let cmd = state.set_armed(Some(1));
    assert!(matches!(cmd, Command::ArmTrack(1)));
    let cmd = state.set_armed(None);
    assert!(matches!(cmd, Command::ArmTrack(-1)));
}

#[test]
fn set_metronome_mirrors_and_builds_the_command() {
    let mut state = State::new(64, beep());
    let cmd = state.set_metronome(Metronome { beats_per_minute: 90, volume: 3 });
    assert!(matches!(
        cmd,
        Command::SetMetronome { volume: 3, beats_per_minute: 90 }
    ));
    assert_eq!(state.metronome().beats_per_minute, 90);
    assert_eq!(state.metronome().volume, 3);
}

#[test]
fn play_sound_wraps_the_confirmation_trigger() {
    let state = State::new(64, beep());
    assert!(matches!(state.play_sound(), Command::PlaySound(_)));
}

#[test]
fn mirror_commands_drive_the_engine() {
    let mut state = State::new(64, beep());
    let mut p = Processor::new(48000, 64, Arc::new(AudioBuffer::from_mono_samples(vec![1])));
    let (id, cmd) = state.create_track(String::from("a"));
    assert!(p.send_command(cmd));
    assert!(p.send_command(state.play_sound()));
    let midi: Vec<MidiEvent> = Vec::new();
    let mut runtime = UnavailableRuntime;
    p.process(4, &midi, &mut runtime);
    let ids: Vec<i32> = p.tracks().iter().map(|t| t.id()).collect();
    assert_eq!(ids, vec![id]);
    // The confirmation sound was started by the mirror, so it renders at
    // the head of the mix.
    assert_eq!(p.output().sample(0, 0), 500);
}

#[test]
fn replace_if_default_substitutes_only_defaults() {
    let named = replace_if_default(String::from("Drums"), || String::from("Track 1"));
    assert_eq!(named, "Drums");
    let fallback = replace_if_default(String::new(), || String::from("Track 1"));
    assert_eq!(fallback, "Track 1");
    assert_eq!(replace_if_default(0u32, || 7u32), 7);
    assert_eq!(replace_if_default(5u32, || 7u32), 5);
}
