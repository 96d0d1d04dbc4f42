//! The control plane's mirrored snapshot of the engine.  Every mutation
//! updates the mirror optimistically and hands back the command to send
//! to the audio thread; the mirror is eventually consistent by design.

use vstd::prelude::*;

use std::collections::HashSet;

use vstd::std_specs::cmp::PartialEqSpec;

use crate::commands::Command;
use crate::plugin::{PluginInstance, SampleTrigger};

verus! {

broadcast use vstd::std_specs::hash::group_hash_axioms;

/// A plugin offered by the hosting runtime's registry.
#[derive(Clone, Debug)]
pub struct Plugin {
    /// The registry identifier of the plugin.
    pub id: String,
    /// The human-readable name of the plugin.
    pub name: String,
    /// The class of the plugin.
    pub class: PluginClass,
}

/// The class of a plugin: an instrument produces audio from events, an
/// effect transforms audio.
#[derive(Clone, Copy, Debug, PartialEq, Eq, Structural)]
pub enum PluginClass {
    /// A plugin that produces audio from events.
    Instrument,
    /// A plugin that transforms audio.
    Effect,
}

/// A plugin within a track, as the control plane sees it.
#[derive(Clone, Debug)]
pub struct TrackPlugin {
    /// The registry identifier of the plugin.
    pub plugin_id: String,
}

/// The properties of a mirrored track.
#[derive(Copy, Clone, Debug, PartialEq, Eq, Structural)]
pub struct TrackProperties {
    /// True if the track receives the live event input.
    pub armed: bool,
}

/// A track, as the control plane sees it.
#[derive(Clone, Debug)]
pub struct Track {
    /// The unique identifier for the track.
    pub id: i32,
    /// The name of the track.
    pub name: String,
    /// The plugins on the track.
    pub plugins: Vec<TrackPlugin>,
    /// The track properties.
    pub properties: TrackProperties,
}

/// The metronome settings, as the control plane sees them.
#[derive(Copy, Clone, Debug, PartialEq, Eq, Structural)]
pub struct Metronome {
    /// The beats per minute.
    pub beats_per_minute: u32,
    /// The fixed-point volume of the metronome click.
    pub volume: i64,
}

/// The reasons a control-plane request is refused before any command is
/// sent.
#[derive(Copy, Clone, Debug, PartialEq, Eq, Structural)]
pub enum StateError {
    /// No mirrored track carries the given id.
    TrackNotFound(i32),
    /// The given plugin index is out of range for the track.
    PluginIndexOutOfRange(i32, usize),
}

/// The index of the first mirrored track with the given id, or `-1`
/// when no track has it.
pub open spec fn mirror_find(tracks: Seq<Track>, id: int) -> int
    decreases tracks.len(),
{
    if tracks.len() == 0 {
        -1
    } else if tracks[0].id == id {
        0
    } else {
        let r = mirror_find(tracks.drop_first(), id);
        if r == -1 {
            -1
        } else {
            r + 1
        }
    }
}

/// `mirror_find` returns the first matching index.
pub proof fn lemma_mirror_find_some(tracks: Seq<Track>, id: int, k: int)
    requires
        0 <= k < tracks.len(),
        tracks[k].id == id,
        forall|j: int| 0 <= j < k ==> (#[trigger] tracks[j]).id != id,
    ensures
        mirror_find(tracks, id) == k,
    decreases tracks.len(),
{
    if k == 0 {
    } else {
        lemma_mirror_find_some(tracks.drop_first(), id, k - 1);
    }
}

/// `mirror_find` reports `-1` exactly when no track has the id.
pub proof fn lemma_mirror_find_none(tracks: Seq<Track>, id: int)
    requires
        forall|j: int| 0 <= j < tracks.len() ==> (#[trigger] tracks[j]).id != id,
    ensures
        mirror_find(tracks, id) == -1,
    decreases tracks.len(),
{
    if tracks.len() == 0 {
    } else {
        lemma_mirror_find_none(tracks.drop_first(), id);
    }
}

/// The mirrored tracks that survive deleting a set of ids, in order.
pub open spec fn mirror_kept(tracks: Seq<Track>, ids: Set<i32>) -> Seq<Track>
    decreases tracks.len(),
{
    if tracks.len() == 0 {
        Seq::empty()
    } else {
        let rest = mirror_kept(tracks.drop_last(), ids);
        if ids.contains(tracks.last().id) {
            rest
        } else {
            rest.push(tracks.last())
        }
    }
}

/// The deletion commands for the tracks a delete request removes, in
/// track order.
pub open spec fn mirror_delete_commands(tracks: Seq<Track>, ids: Set<i32>) -> Seq<Command>
    decreases tracks.len(),
{
    if tracks.len() == 0 {
        Seq::empty()
    } else {
        let rest = mirror_delete_commands(tracks.drop_last(), ids);
        if ids.contains(tracks.last().id) {
            rest.push(Command::DeleteTrack(tracks.last().id))
        } else {
            rest
        }
    }
}

/// The control plane's mirrored snapshot of the engine, updated
/// optimistically as requests are accepted.
#[derive(Debug)]
pub struct State {
    metronome: Metronome,
    tracks: Vec<Track>,
    armed_track: Option<i32>,
    next_track_id: i32,
    buffer_size: usize,
    ok_sound: SampleTrigger,
}

impl State {
    /// The mirrored metronome settings.
    pub closed spec fn spec_metronome(&self) -> Metronome {
        self.metronome
    }

    /// The mirrored tracks, in creation order.
    pub closed spec fn spec_tracks(&self) -> Seq<Track> {
        self.tracks@
    }

    /// The id of the armed track, if any.
    pub closed spec fn spec_armed_track(&self) -> Option<i32> {
        self.armed_track
    }

    /// The id the next created track will receive.
    pub closed spec fn spec_next_track_id(&self) -> i32 {
        self.next_track_id
    }

    /// The engine's buffer size, used to shape new engine tracks.
    pub closed spec fn spec_buffer_size(&self) -> int {
        self.buffer_size as int
    }

    /// The confirmation sound sent for accepted requests.
    pub closed spec fn spec_ok_sound(&self) -> SampleTrigger {
        self.ok_sound
    }

    /// The well-formedness invariant of the mirror.
    pub closed spec fn spec_wf(&self) -> bool {
        &&& 2 * self.buffer_size <= usize::MAX
        &&& self.ok_sound.spec_wf()
    }

    /// Creates a new mirror for an engine with the given buffer size,
    /// using the given one-shot waveform as the confirmation sound.
    pub fn new(buffer_size: usize, ok_sound: SampleTrigger) -> (r: State)
        requires
            2 * buffer_size <= usize::MAX,
            ok_sound.spec_wf(),
        ensures
            r.spec_wf(),
            r.spec_metronome() == (Metronome { beats_per_minute: 120u32, volume: 0i64 }),
            r.spec_tracks().len() == 0,
            r.spec_armed_track() is None,
            r.spec_next_track_id() == 1,
            r.spec_buffer_size() == buffer_size,
    {
        let mut ok_sound = ok_sound;
        ok_sound.start();
        State {
            metronome: Metronome { beats_per_minute: 120, volume: 0 },
            tracks: Vec::new(),
            armed_track: None,
            next_track_id: 1,
            buffer_size,
            ok_sound,
        }
    }

    /// The command that plays the confirmation sound.
    pub fn play_sound(&self) -> (r: Command)
        requires
            self.spec_wf(),
        ensures
            r == Command::PlaySound(self.spec_ok_sound()),
            r.spec_wf(),
    {
        Command::PlaySound(self.ok_sound.clone())
    }

    /// Sets the metronome parameters in the mirror and returns the
    /// command that applies them to the engine.  The engine always
    /// applies the volume; a tempo above its representable ceiling of
    /// one beat per frame keeps the engine's previous tempo, the one
    /// point where this mirror can stay ahead of it.
    pub fn set_metronome(&mut self, metronome: Metronome) -> (r: Command)
        requires
            old(self).spec_wf(),
        ensures
            final(self).spec_wf(),
            final(self).spec_metronome() == metronome,
            final(self).spec_tracks() == old(self).spec_tracks(),
            final(self).spec_armed_track() == old(self).spec_armed_track(),
            final(self).spec_next_track_id() == old(self).spec_next_track_id(),
            r == (Command::SetMetronome {
                volume: metronome.volume,
                beats_per_minute: metronome.beats_per_minute,
            }),
    {
        self.metronome = metronome;
        Command::SetMetronome {
            volume: metronome.volume,
            beats_per_minute: metronome.beats_per_minute,
        }
    }

    /// Records the armed track in the mirror and returns the command
    /// that arms it; `None` disarms every track, encoded as the
    /// metronome's reserved id.
    pub fn set_armed(&mut self, track_id: Option<i32>) -> (r: Command)
        requires
            old(self).spec_wf(),
        ensures
            final(self).spec_wf(),
            final(self).spec_armed_track() == track_id,
            final(self).spec_tracks() == old(self).spec_tracks(),
            final(self).spec_metronome() == old(self).spec_metronome(),
            r == Command::ArmTrack(
                match track_id {
                    Some(id) => id,
                    None => -1i32,
                },
            ),
    {
        self.armed_track = track_id;
        let id = match track_id {
            Some(id) => id,
            None => -1,
        };
        Command::ArmTrack(id)
    }

    /// Adds a plugin to a mirrored track and returns the command that
    /// adds the instantiated module to the engine track.  A request for
    /// an unknown track is refused before anything is sent.
    pub fn add_plugin_to_track(
        &mut self,
        track_id: i32,
        plugin_id: String,
        instance: PluginInstance,
    ) -> (r: Result<Command, StateError>)
        requires
            old(self).spec_wf(),
            instance.spec_wf(),
        ensures
            final(self).spec_wf(),
            final(self).spec_metronome() == old(self).spec_metronome(),
            final(self).spec_armed_track() == old(self).spec_armed_track(),
            final(self).spec_next_track_id() == old(self).spec_next_track_id(),
            mirror_find(old(self).spec_tracks(), track_id as int) == -1 ==> r == Err::<
                Command,
                StateError,
            >(StateError::TrackNotFound(track_id)) && final(self).spec_tracks() == old(
                self,
            ).spec_tracks(),
            mirror_find(old(self).spec_tracks(), track_id as int) >= 0 ==> {
                let k = mirror_find(old(self).spec_tracks(), track_id as int);
                &&& r == Ok::<Command, StateError>(
                    Command::AddPluginToTrack(track_id, instance),
                )
                &&& final(self).spec_tracks().len() == old(self).spec_tracks().len()
                &&& forall|j: int|
                    0 <= j < old(self).spec_tracks().len() && j != k
                        ==> #[trigger] final(self).spec_tracks()[j] == old(self).spec_tracks()[j]
                &&& final(self).spec_tracks()[k].id == old(self).spec_tracks()[k].id
                &&& final(self).spec_tracks()[k].name == old(self).spec_tracks()[k].name
                &&& final(self).spec_tracks()[k].properties == old(self).spec_tracks()[
                    k].properties
                &&& final(self).spec_tracks()[k].plugins@ == old(self).spec_tracks()[
                    k].plugins@.push((TrackPlugin { plugin_id }))
            },
    {
        let found = mirror_find_index(&self.tracks, track_id);
        match found {
            None => Err(StateError::TrackNotFound(track_id)),
            Some(k) => {
                let t = &mut self.tracks[k];
                t.plugins.push(TrackPlugin { plugin_id });
                Ok(Command::AddPluginToTrack(track_id, instance))
            },
        }
    }

    /// Removes a plugin from a mirrored track and returns the command
    /// that removes it from the engine track.  A request for an unknown
    /// track or an out-of-range index is refused before anything is
    /// sent.
    pub fn remove_plugin_from_track(&mut self, track_id: i32, plugin_index: usize) -> (r: Result<
        Command,
        StateError,
    >)
        requires
            old(self).spec_wf(),
        ensures
            final(self).spec_wf(),
            final(self).spec_metronome() == old(self).spec_metronome(),
            final(self).spec_armed_track() == old(self).spec_armed_track(),
            final(self).spec_next_track_id() == old(self).spec_next_track_id(),
            mirror_find(old(self).spec_tracks(), track_id as int) == -1 ==> r == Err::<
                Command,
                StateError,
            >(StateError::TrackNotFound(track_id)) && final(self).spec_tracks() == old(
                self,
            ).spec_tracks(),
            mirror_find(old(self).spec_tracks(), track_id as int) >= 0 ==> {
                let k = mirror_find(old(self).spec_tracks(), track_id as int);
                if plugin_index < old(self).spec_tracks()[k].plugins@.len() {
                    &&& r == Ok::<Command, StateError>(
                        Command::DeletePlugin(track_id, plugin_index),
                    )
                    &&& final(self).spec_tracks().len() == old(self).spec_tracks().len()
                    &&& (forall|j: int|
                        0 <= j < old(self).spec_tracks().len() && j != k
                            ==> #[trigger] final(self).spec_tracks()[j] == old(
                            self,
                        ).spec_tracks()[j])
                    &&& final(self).spec_tracks()[k].id == old(self).spec_tracks()[k].id
                    &&& final(self).spec_tracks()[k].name == old(self).spec_tracks()[k].name
                    &&& final(self).spec_tracks()[k].properties == old(self).spec_tracks()[
                        k].properties
                    &&& final(self).spec_tracks()[k].plugins@ == old(self).spec_tracks()[
                        k].plugins@.remove(plugin_index as int)
                } else {
                    r == Err::<Command, StateError>(
                        StateError::PluginIndexOutOfRange(track_id, plugin_index),
                    ) && final(self).spec_tracks() == old(self).spec_tracks()
                }
            },
    {
        let found = mirror_find_index(&self.tracks, track_id);
        match found {
            None => Err(StateError::TrackNotFound(track_id)),
            Some(k) => {
                let t = &mut self.tracks[k];
                if plugin_index < t.plugins.len() {
                    let _removed = t.plugins.remove(plugin_index);
                    Ok(Command::DeletePlugin(track_id, plugin_index))
                } else {
                    Err(StateError::PluginIndexOutOfRange(track_id, plugin_index))
                }
            },
        }
    }

    /// Sets a mirrored track's properties.  An arming change arms or
    /// disarms through the engine: exactly the chosen track ends up
    /// armed (disarming targets the metronome's reserved id, which no
    /// track carries), and the command to send is returned; a request
    /// that changes nothing sends nothing.
    pub fn set_track_properties(&mut self, track_id: i32, armed: bool) -> (r: Result<
        Option<Command>,
        StateError,
    >)
        requires
            old(self).spec_wf(),
        ensures
            final(self).spec_wf(),
            final(self).spec_metronome() == old(self).spec_metronome(),
            final(self).spec_next_track_id() == old(self).spec_next_track_id(),
            mirror_find(old(self).spec_tracks(), track_id as int) == -1 ==> r == Err::<
                Option<Command>,
                StateError,
            >(StateError::TrackNotFound(track_id)) && final(self).spec_tracks() == old(
                self,
            ).spec_tracks() && final(self).spec_armed_track() == old(self).spec_armed_track(),
            mirror_find(old(self).spec_tracks(), track_id as int) >= 0 ==> {
                let k = mirror_find(old(self).spec_tracks(), track_id as int);
                let was = old(self).spec_tracks()[k].properties.armed;
                if was == armed {
                    r == Ok::<Option<Command>, StateError>(None) && final(self).spec_tracks()
                        == old(self).spec_tracks() && final(self).spec_armed_track() == old(
                        self,
                    ).spec_armed_track()
                } else {
                    let target = if armed {
                        track_id
                    } else {
                        -1i32
                    };
                    &&& r == Ok::<Option<Command>, StateError>(
                        Some(Command::ArmTrack(target)),
                    )
                    &&& final(self).spec_tracks().len() == old(self).spec_tracks().len()
                    &&& forall|j: int|
                        0 <= j < old(self).spec_tracks().len()
                            ==> #[trigger] final(self).spec_tracks()[j] == (Track {
                            properties: TrackProperties {
                                armed: old(self).spec_tracks()[j].id == target,
                            },
                            ..old(self).spec_tracks()[j]
                        })
                    &&& final(self).spec_armed_track() == if armed {
                        Some(track_id)
                    } else {
                        None::<i32>
                    }
                }
            },
    {
        let found = mirror_find_index(&self.tracks, track_id);
        match found {
            None => Err(StateError::TrackNotFound(track_id)),
            Some(k) => {
                let was = self.tracks[k].properties.armed;
                if was == armed {
                    Ok(None)
                } else {
                    let target: i32 = if armed {
                        track_id
                    } else {
                        -1
                    };
                    let ghost selfpre = *self;
                    let ghost orig = self.tracks@;
                    let tn: usize = self.tracks.len();
                    let mut j: usize = 0;
                    while j < tn
                        invariant
                            self.metronome == selfpre.metronome,
                            self.armed_track == selfpre.armed_track,
                            self.next_track_id == selfpre.next_track_id,
                            self.buffer_size == selfpre.buffer_size,
                            self.ok_sound == selfpre.ok_sound,
                            self.spec_wf(),
                            j <= tn,
                            tn == self.tracks@.len(),
                            orig.len() == tn,
                            forall|q: int|
                                j <= q < tn ==> #[trigger] self.tracks@[q] == orig[q],
                            forall|q: int|
                                0 <= q < j ==> #[trigger] self.tracks@[q] == (Track {
                                    properties: TrackProperties { armed: orig[q].id == target },
                                    ..orig[q]
                                }),
                        decreases tn - j,
                    {
                        let is_target = self.tracks[j].id == target;
                        let t = &mut self.tracks[j];
                        t.properties.armed = is_target;
                        j = j + 1;
                    }
                    self.armed_track = if armed {
                        Some(track_id)
                    } else {
                        None
                    };
                    Ok(Some(Command::ArmTrack(target)))
                }
            },
        }
    }

    /// The mirrored tracks.
    pub fn tracks(&self) -> (r: &Vec<Track>)
        ensures
            r@ == self.spec_tracks(),
    {
        &self.tracks
    }

    /// The mirrored metronome settings.
    pub fn metronome(&self) -> (r: &Metronome)
        ensures
            *r == self.spec_metronome(),
    {
        &self.metronome
    }

    /// Creates a track in the mirror under the given display name and
    /// returns its id together with the command that creates the engine
    /// track.
    pub fn create_track(&mut self, name: String) -> (r: (i32, Command))
        requires
            old(self).spec_wf(),
            old(self).spec_next_track_id() < i32::MAX,
        ensures
            final(self).spec_wf(),
            final(self).spec_metronome() == old(self).spec_metronome(),
            final(self).spec_armed_track() == old(self).spec_armed_track(),
            r.0 == old(self).spec_next_track_id(),
            final(self).spec_next_track_id() == old(self).spec_next_track_id() + 1,
            final(self).spec_tracks().len() == old(self).spec_tracks().len() + 1,
            forall|j: int|
                0 <= j < old(self).spec_tracks().len() ==> #[trigger] final(self).spec_tracks()[j]
                    == old(self).spec_tracks()[j],
            final(self).spec_tracks().last().id == r.0,
            final(self).spec_tracks().last().name == name,
            final(self).spec_tracks().last().plugins@.len() == 0,
            !final(self).spec_tracks().last().properties.armed,
            r.1 matches Command::AddTrack(t) && t.spec_id() == r.0 && t.spec_plugins().len() == 0
                && t.spec_wf(),
    {
        let track_id = self.next_track_id;
        let track = Track {
            name,
            id: track_id,
            plugins: Vec::new(),
            properties: TrackProperties { armed: false },
        };
        let engine_track = crate::track::Track::new(track_id, self.buffer_size);
        self.tracks.push(track);
        self.next_track_id = self.next_track_id + 1;
        (track_id, Command::AddTrack(engine_track))
    }

    /// Deletes the requested tracks that exist in the mirror and
    /// returns one deletion command per removed track, in track order.
    pub fn delete_tracks(&mut self, ids_requested_for_deletion: HashSet<i32>) -> (r: Vec<Command>)
        requires
            old(self).spec_wf(),
        ensures
            final(self).spec_wf(),
            final(self).spec_metronome() == old(self).spec_metronome(),
            final(self).spec_armed_track() == old(self).spec_armed_track(),
            final(self).spec_next_track_id() == old(self).spec_next_track_id(),
            final(self).spec_tracks() == mirror_kept(
                old(self).spec_tracks(),
                ids_requested_for_deletion@,
            ),
            r@ == mirror_delete_commands(old(self).spec_tracks(), ids_requested_for_deletion@),
    {
        let mut commands: Vec<Command> = Vec::new();
        let mut pending: Vec<Track> = Vec::new();
        core::mem::swap(&mut self.tracks, &mut pending);
        let ghost selfpre = *self;
        let ghost orig = pending@;
        let on: usize = pending.len();
        let mut moved: usize = 0;
        while pending.len() > 0
            invariant
                self.metronome == selfpre.metronome,
                self.armed_track == selfpre.armed_track,
                self.next_track_id == selfpre.next_track_id,
                self.buffer_size == selfpre.buffer_size,
                self.ok_sound == selfpre.ok_sound,
                self.spec_wf(),
                moved + pending@.len() == on,
                orig.len() == on,
                pending@ =~= orig.subrange(moved as int, on as int),
                self.tracks@ =~= mirror_kept(
                    orig.subrange(0, moved as int),
                    ids_requested_for_deletion@,
                ),
                commands@ =~= mirror_delete_commands(
                    orig.subrange(0, moved as int),
                    ids_requested_for_deletion@,
                ),
            decreases pending@.len(),
        {
            let t = pending.remove(0);
            proof {
                assert(t == orig[moved as int]);
            }
            let delete = ids_requested_for_deletion.contains(&t.id);
            proof {
                assert(delete == ids_requested_for_deletion@.contains(t.id));
            }
            if delete {
                commands.push(Command::DeleteTrack(t.id));
            } else {
                self.tracks.push(t);
            }
            moved = moved + 1;
            proof {
                assert(orig.subrange(0, moved as int).drop_last() =~= orig.subrange(
                    0,
                    moved as int - 1,
                ));
            }
        }
        proof {
            assert(orig.subrange(0, on as int) =~= orig);
        }
        commands
    }
}

/// Finds the index of the first mirrored track with the given id.
fn mirror_find_index(tracks: &Vec<Track>, id: i32) -> (r: Option<usize>)
    ensures
        match r {
            Some(k) => k < tracks@.len() && mirror_find(tracks@, id as int) == k && tracks@[
                k as int].id == id,
            None => mirror_find(tracks@, id as int) == -1,
        },
{
    let n: usize = tracks.len();
    let mut j: usize = 0;
    while j < n
        invariant
            j <= n,
            n == tracks@.len(),
            forall|q: int| 0 <= q < j ==> (#[trigger] tracks@[q]).id != id,
        decreases n - j,
    {
        if tracks[j].id == id {
            proof {
                lemma_mirror_find_some(tracks@, id as int, j as int);
            }
            return Some(j);
        }
        j = j + 1;
    }
    proof {
        lemma_mirror_find_none(tracks@, id as int);
    }
    None
}

/// Get the result of `f` if `t` is equal to its default value.  If not,
/// then `t` is returned.  Where the type's equality obeys its
/// specification, the contract says exactly which branch applies,
/// relative to some value the type's `default` can return.
pub fn replace_if_default<T: Default + core::cmp::PartialEq, F: Fn() -> T>(t: T, f: F) -> (r: T)
    requires
        call_requires(f, ()),
    ensures
        r == t || call_ensures(f, (), r),
        exists|d: T|
            #[trigger] call_ensures(T::default, (), d) && (T::obeys_eq_spec() ==> if t.eq_spec(
                &d,
            ) {
                call_ensures(f, (), r)
            } else {
                r == t
            }),
{
    let d = T::default();
    let ghost default_value = d;
    if t == d {
        let r = f();
        proof {
            assert(call_ensures(T::default, (), default_value) && (T::obeys_eq_spec()
                ==> if t.eq_spec(&default_value) {
                call_ensures(f, (), r)
            } else {
                r == t
            }));
        }
        r
    } else {
        proof {
            assert(call_ensures(T::default, (), default_value) && (T::obeys_eq_spec()
                ==> if t.eq_spec(&default_value) {
                call_ensures(f, (), t)
            } else {
                true
            }));
        }
        t
    }
}

} // verus!
