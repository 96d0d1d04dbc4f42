//! A single audio chain: an ordered sequence of plugin instances with
//! volume, enable and arm state, processed through a pair of
//! double-buffered signal buffers.

use vstd::prelude::*;

use crate::audio_buffer::AudioBuffer;
use crate::events::EventSequence;
use crate::plugin::{trig_cursor, trig_output, HostedRuntime, PluginInstance};

verus! {

/// Properties for the track.
#[derive(Copy, Clone, Debug, PartialEq, Eq, Structural)]
pub struct TrackProperties {
    /// True if the track should be excluded from processing.
    pub disabled: bool,
    /// The fixed-point volume multiplier applied when the track is mixed.
    pub volume: i64,
    /// True if the track receives the live event input.
    pub armed: bool,
}

impl Default for TrackProperties {
    /// The default properties: enabled, disarmed, at half volume.
    fn default() -> (r: TrackProperties)
        ensures
            !r.disabled,
            r.volume == 32768i64,
            !r.armed,
    {
        TrackProperties { disabled: false, volume: 32768i64, armed: false }
    }
}

/// Every plugin of the chain is a sample trigger.
pub open spec fn all_sample(plugins: Seq<PluginInstance>) -> bool {
    forall|k: int|
        0 <= k < plugins.len() ==> (#[trigger] plugins[k]) matches PluginInstance::Sample(_)
}

/// The control-facing model of a track: what command application reads
/// and changes.
#[verifier::ext_equal]
pub ghost struct TrackModel {
    /// The track's identifier.
    pub id: int,
    /// The fixed-point volume multiplier.
    pub volume: int,
    /// Whether the track receives the live event input.
    pub armed: bool,
    /// Whether the track is excluded from processing.
    pub disabled: bool,
    /// The plugin chain.
    pub plugins: Seq<PluginInstance>,
}

/// A single audio chain.
#[derive(Debug)]
pub struct Track {
    properties: TrackProperties,
    id: i32,
    plugins: Vec<PluginInstance>,
    audio_input: AudioBuffer,
    audio_output: AudioBuffer,
}

impl Track {
    /// The track's immutable identifier.
    pub closed spec fn spec_id(&self) -> i32 {
        self.id
    }

    /// The mutable properties of the track.
    pub closed spec fn spec_properties(&self) -> TrackProperties {
        self.properties
    }

    /// Returns the track's properties.
    pub fn properties(&self) -> (r: TrackProperties)
        ensures
            r == self.spec_properties(),
    {
        self.properties
    }

    /// Arms or disarms the track.
    pub fn set_armed(&mut self, armed: bool)
        ensures
            final(self).spec_properties() == (TrackProperties {
                armed,
                ..old(self).spec_properties()
            }),
            final(self).spec_id() == old(self).spec_id(),
            final(self).spec_plugins() == old(self).spec_plugins(),
            final(self).spec_output() == old(self).spec_output(),
            final(self).spec_wf() == old(self).spec_wf(),
    {
        self.properties.armed = armed;
    }

    /// Sets the track's fixed-point volume multiplier.
    pub fn set_volume(&mut self, volume: i64)
        ensures
            final(self).spec_properties() == (TrackProperties {
                volume,
                ..old(self).spec_properties()
            }),
            final(self).spec_id() == old(self).spec_id(),
            final(self).spec_plugins() == old(self).spec_plugins(),
            final(self).spec_output() == old(self).spec_output(),
            final(self).spec_wf() == old(self).spec_wf(),
    {
        self.properties.volume = volume;
    }

    /// The plugin chain, in processing order.
    pub closed spec fn spec_plugins(&self) -> Seq<PluginInstance> {
        self.plugins@
    }

    /// The output buffer of the most recent processing run.
    pub closed spec fn spec_output(&self) -> AudioBuffer {
        self.audio_output
    }

    /// The control-facing model of the track.
    pub open spec fn model(&self) -> TrackModel {
        TrackModel {
            id: self.spec_id() as int,
            volume: self.spec_properties().volume as int,
            armed: self.spec_properties().armed,
            disabled: self.spec_properties().disabled,
            plugins: self.spec_plugins(),
        }
    }

    /// The well-formedness invariant: both internal buffers are
    /// well-formed stereo buffers, and every chained plugin is well
    /// formed.
    pub closed spec fn spec_wf(&self) -> bool {
        &&& self.audio_input.spec_wf()
        &&& self.audio_output.spec_wf()
        &&& self.audio_input.spec_channels() == 2
        &&& self.audio_output.spec_channels() == 2
        &&& forall|k: int|
            0 <= k < self.plugins@.len() ==> (#[trigger] self.plugins@[k]).spec_wf()
    }

    /// Creates a new track with the given identifier and no plugins.
    pub fn new(id: i32, buffer_size: usize) -> (r: Track)
        requires
            2 * buffer_size <= usize::MAX,
        ensures
            r.spec_wf(),
            r.spec_id() == id,
            r.spec_plugins().len() == 0,
            r.spec_properties() == (TrackProperties {
                disabled: false,
                volume: 32768i64,
                armed: false,
            }),
    {
        Track {
            properties: TrackProperties::default(),
            id,
            plugins: Vec::new(),
            audio_input: AudioBuffer::with_stereo(buffer_size),
            audio_output: AudioBuffer::with_stereo(buffer_size),
        }
    }

    /// Get the `id` of the track.
    pub fn id(&self) -> (r: i32)
        ensures
            r == self.spec_id(),
    {
        self.id
    }

    /// Appends a plugin to the end of the chain.
    pub fn push_plugin(&mut self, plugin: PluginInstance)
        requires
            old(self).spec_wf(),
            plugin.spec_wf(),
        ensures
            final(self).spec_wf(),
            final(self).spec_id() == old(self).spec_id(),
            final(self).spec_properties() == old(self).spec_properties(),
            final(self).spec_plugins() == old(self).spec_plugins().push(plugin),
    {
        self.plugins.push(plugin);
    }

    /// Removes and returns the plugin at `index`, or returns `None` when
    /// the index is out of range.
    pub fn remove_plugin(&mut self, index: usize) -> (r: Option<PluginInstance>)
        requires
            old(self).spec_wf(),
        ensures
            final(self).spec_wf(),
            final(self).spec_id() == old(self).spec_id(),
            final(self).spec_properties() == old(self).spec_properties(),
            index < old(self).spec_plugins().len() ==> {
                &&& r == Some(old(self).spec_plugins()[index as int])
                &&& final(self).spec_plugins() == old(self).spec_plugins().remove(index as int)
            },
            index >= old(self).spec_plugins().len() ==> r is None && final(self).spec_plugins()
                == old(self).spec_plugins(),
    {
        if index < self.plugins.len() {
            Some(self.plugins.remove(index))
        } else {
            None
        }
    }

    /// Runs processing for the track: both internal buffers take the
    /// callback's shape and are zeroed, and the chain runs in order,
    /// each plugin reading the previous plugin's output.  A plugin
    /// failure disables the track and aborts the remainder of the chain
    /// for this callback, leaving whatever partial output existed.  The
    /// failure is recorded only as the `disabled` flag; the returned
    /// ghost value names the failing chain index, and the contract ties
    /// the flag and the untouched chain tail to it.
    pub fn process<R: HostedRuntime>(
        &mut self,
        samples: usize,
        midi: &EventSequence,
        runtime: &mut R,
    ) -> (chain_failure: Ghost<Option<int>>)
        requires
            old(self).spec_wf(),
            midi.spec_wf(),
            2 * samples <= usize::MAX,
        ensures
            final(self).spec_wf(),
            final(self).spec_id() == old(self).spec_id(),
            final(self).spec_properties().volume == old(self).spec_properties().volume,
            final(self).spec_properties().armed == old(self).spec_properties().armed,
            final(self).spec_properties().disabled == (old(self).spec_properties().disabled
                || chain_failure@ is Some),
            chain_failure@ matches Some(k) ==> {
                &&& 0 <= k < old(self).spec_plugins().len()
                &&& old(self).spec_plugins()[k] matches PluginInstance::Hosted(_)
                &&& forall|j: int|
                    k < j < old(self).spec_plugins().len() ==> #[trigger] final(self).spec_plugins()[j] == old(self).spec_plugins()[j]
            },
            all_sample(old(self).spec_plugins()) ==> chain_failure@ is None,
            final(self).spec_output().spec_wf(),
            final(self).spec_output().spec_channels() == 2,
            final(self).spec_output().spec_buffer_size() == samples,
            final(self).spec_plugins().len() == old(self).spec_plugins().len(),
            forall|j: int|
                0 <= j < old(self).spec_plugins().len() ==> ((#[trigger] old(self).spec_plugins()[j]) matches PluginInstance::Hosted(h) ==> final(self).spec_plugins()[j] == old(self).spec_plugins()[j]),
            forall|j: int|
                0 <= j < old(self).spec_plugins().len() ==> ((#[trigger] old(self).spec_plugins()[j]) matches PluginInstance::Sample(t) ==> (final(self).spec_plugins()[j] matches PluginInstance::Sample(t2) && t2.spec_wave()
                    == t.spec_wave())),
            all_sample(old(self).spec_plugins()) ==> {
                &&& final(self).spec_properties().disabled == old(self).spec_properties().disabled
                &&& forall|j: int|
                    0 <= j < old(self).spec_plugins().len() ==> ((#[trigger] old(self).spec_plugins()[j]) matches PluginInstance::Sample(t) ==> (final(self).spec_plugins()[j] matches PluginInstance::Sample(t2) && t2.spec_cursor()
                        == trig_cursor(t.spec_wave(), t.spec_cursor(), midi@, samples as nat)))
            },
            all_sample(old(self).spec_plugins()) && old(self).spec_plugins().len() == 0 ==> final(self).spec_output().all_zero(),
            all_sample(old(self).spec_plugins()) && old(self).spec_plugins().len() > 0 ==> (old(self).spec_plugins().last() matches PluginInstance::Sample(t) && forall|c: int, f: int|
                0 <= c < 2 && 0 <= f < samples ==> #[trigger] final(self).spec_output().sample_at(
                    c,
                    f,
                ) == trig_output(t.spec_wave(), t.spec_cursor(), midi@, f)),
    {
        self.audio_output.reset_with_buffer_size(samples);
        self.audio_input.reset_with_buffer_size(samples);
        let n: usize = self.plugins.len();
        let ghost mut fail_at: Option<int> = None;
        let mut failed: bool = false;
        let mut k: usize = 0;
        while k < n && !failed
            invariant
                k <= n,
                n == self.plugins@.len(),
                n == old(self).spec_plugins().len(),
                midi.spec_wf(),
                2 * samples <= usize::MAX,
                self.spec_wf(),
                self.spec_id() == old(self).spec_id(),
                self.properties.volume == old(self).properties.volume,
                self.properties.armed == old(self).properties.armed,
                !failed ==> self.properties.disabled == old(self).properties.disabled,
                failed ==> self.properties.disabled,
                failed == (fail_at is Some),
                fail_at matches Some(kk) ==> {
                    &&& kk == k - 1
                    &&& 0 <= kk < n
                    &&& old(self).spec_plugins()[kk] matches PluginInstance::Hosted(_)
                },
                old(self).properties.disabled ==> self.properties.disabled,
                self.audio_input.spec_buffer_size() == samples,
                self.audio_output.spec_buffer_size() == samples,
                forall|j: int|
                    k <= j < n ==> #[trigger] self.plugins@[j] == old(self).spec_plugins()[j],
                forall|j: int|
                    0 <= j < k ==> ((#[trigger] old(self).spec_plugins()[j]) matches
                        PluginInstance::Hosted(h) ==> self.plugins@[j] == old(self).spec_plugins()[j]),
                forall|j: int|
                    0 <= j < k ==> ((#[trigger] old(self).spec_plugins()[j]) matches
                        PluginInstance::Sample(t) ==> (self.plugins@[j] matches
                        PluginInstance::Sample(t2) && t2.spec_wave() == t.spec_wave())),
                all_sample(old(self).spec_plugins()) ==> {
                    &&& !failed
                    &&& forall|j: int|
                        0 <= j < k ==> ((#[trigger] old(self).spec_plugins()[j]) matches
                            PluginInstance::Sample(t) ==> (self.plugins@[j] matches
                            PluginInstance::Sample(t2) && t2.spec_cursor() == trig_cursor(
                            t.spec_wave(),
                            t.spec_cursor(),
                            midi@,
                            samples as nat,
                        )))
                },
                all_sample(old(self).spec_plugins()) && k == 0
                    ==> self.audio_output.all_zero(),
                all_sample(old(self).spec_plugins()) && k > 0 ==> (old(self).spec_plugins()[k - 1] matches PluginInstance::Sample(t) && forall|
                    c: int,
                    f: int,
                |
                    0 <= c < 2 && 0 <= f < samples
                        ==> #[trigger] self.audio_output.sample_at(c, f) == trig_output(
                        t.spec_wave(),
                        t.spec_cursor(),
                        midi@,
                        f,
                    )),
            decreases n - k,
        {
            core::mem::swap(&mut self.audio_input, &mut self.audio_output);
            let result = (&mut self.plugins[k]).process(
                samples,
                midi,
                &self.audio_input,
                &mut self.audio_output,
                runtime,
            );
            if result.is_err() {
                self.properties.disabled = true;
                failed = true;
                proof {
                    assert(old(self).spec_plugins()[k as int] matches PluginInstance::Hosted(_));
                    fail_at = Some(k as int);
                }
            }
            k = k + 1;
        }
        Ghost(fail_at)
    }

    /// Returns the output buffer of the most recent processing run.
    pub fn output(&self) -> (r: &AudioBuffer)
        ensures
            *r == self.spec_output(),
    {
        &self.audio_output
    }
}

} // verus!
