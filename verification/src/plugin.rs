//! Plugin instances: the closed set of processing units a track can
//! chain.  A [`SampleTrigger`] plays a shared waveform once per note-on;
//! a [`HostedPlugin`] stands for a module instantiated by an external
//! hosting runtime, reached through the [`HostedRuntime`] trait.

use vstd::prelude::*;

use std::sync::Arc;

use crate::audio_buffer::{wav_error_cond, wav_header_of, wav_samples_of, spec_pcm16, AudioBuffer,
    WavError};
use crate::events::{fires_note_on_in, EventSequence};

verus! {

/// Describes a process failure: the hosted runtime's render call failed.
/// The failure is fatal for the invocation and never retried.
#[derive(Copy, Clone, Debug, PartialEq, Eq, Structural)]
pub enum PluginProcessError {
    /// The externally hosted module failed to run.
    Hosted,
}

/// Relies on `alloc::sync::Arc::clone`: the clone is a handle to the very
/// same allocation, so it equals the original.
#[verifier::external_body]
fn arc_clone(v: &Arc<AudioBuffer>) -> (r: Arc<AudioBuffer>)
    ensures
        r == *v,
{
    Arc::clone(v)
}

/// The cursor after the events of a frame have been scanned: a note-on
/// at the frame resets it to the start of the waveform.
pub open spec fn trig_fire(c: Option<int>, fired: bool) -> Option<int> {
    if fired {
        Some(0int)
    } else {
        c
    }
}

/// The sample a frame emits: the waveform sample under the cursor, or
/// silence when no cursor is set or the waveform is exhausted.
pub open spec fn trig_out(wave: Seq<i64>, c: Option<int>) -> i64 {
    match c {
        Some(i) => if 0 <= i < wave.len() {
            wave[i]
        } else {
            0i64
        },
        None => 0i64,
    }
}

/// The cursor after a frame has been emitted: it advances through the
/// waveform and clears once the waveform is exhausted.
pub open spec fn trig_next(wave: Seq<i64>, c: Option<int>) -> Option<int> {
    match c {
        Some(i) => if 0 <= i < wave.len() {
            Some(i + 1)
        } else {
            None
        },
        None => None,
    }
}

/// The cursor at the start of frame `f`, before that frame's events are
/// scanned, when rendering starts from cursor `c0` under the events `ev`.
pub open spec fn trig_cursor(wave: Seq<i64>, c0: Option<int>, ev: Seq<(u32, Seq<u8>)>, f: nat)
    -> Option<int>
    decreases f,
{
    if f == 0 {
        c0
    } else {
        let prev = trig_cursor(wave, c0, ev, (f - 1) as nat);
        trig_next(wave, trig_fire(prev, fires_note_on_in(ev, f - 1)))
    }
}

/// The sample that frame `f` emits when rendering starts from cursor
/// `c0` under the events `ev`.
pub open spec fn trig_output(wave: Seq<i64>, c0: Option<int>, ev: Seq<(u32, Seq<u8>)>, f: int)
    -> i64 {
    trig_out(wave, trig_fire(trig_cursor(wave, c0, ev, f as nat), fires_note_on_in(ev, f)))
}

/// A one-shot trigger over a shared immutable waveform: a note-on (or an
/// explicit start) plays the waveform once from the beginning.
#[derive(Debug)]
pub struct SampleTrigger {
    sample: Arc<AudioBuffer>,
    index: Option<usize>,
}

impl SampleTrigger {
    /// The well-formedness invariant: the shared waveform buffer is
    /// well formed.
    pub closed spec fn spec_wf(&self) -> bool {
        self.sample.spec_wf()
    }

    /// The waveform the trigger plays: the first channel of the shared
    /// buffer, or the empty waveform when the buffer has no channel.
    pub closed spec fn spec_wave(&self) -> Seq<i64> {
        if self.sample.spec_channels() >= 1 {
            Seq::new(self.sample.spec_buffer_size() as nat, |i: int| self.sample.sample_at(0, i))
        } else {
            Seq::empty()
        }
    }

    /// The play cursor: `Some` while the waveform is playing.
    pub closed spec fn spec_cursor(&self) -> Option<int> {
        match self.index {
            Some(i) => Some(i as int),
            None => None,
        }
    }

    /// Creates a sample trigger from a shared audio buffer, with no
    /// cursor set.
    pub fn new(sample: Arc<AudioBuffer>) -> (r: SampleTrigger)
        requires
            sample.spec_wf(),
        ensures
            r.spec_wf(),
            r.spec_cursor() is None,
            sample.spec_channels() >= 1 ==> r.spec_wave() == Seq::new(
                sample.spec_buffer_size() as nat,
                |i: int| sample.sample_at(0, i),
            ),
            sample.spec_channels() == 0 ==> r.spec_wave() == Seq::<i64>::empty(),
    {
        SampleTrigger { sample, index: None }
    }

    /// Creates a sample trigger from the bytes of a wave file, accepting
    /// mono 16-bit integer PCM only.
    pub fn from_wav(bytes: &Vec<u8>) -> (r: Result<SampleTrigger, WavError>)
        ensures
            r matches Ok(t) ==> {
                &&& t.spec_wf()
                &&& t.spec_cursor() is None
                &&& wav_header_of(bytes@) == Some((1u16, 16u16))
                &&& wav_samples_of(bytes@) is Some
                &&& {
                    let s = wav_samples_of(bytes@)->Some_0;
                    &&& t.spec_wave().len() == s.len()
                    &&& forall|i: int|
                        0 <= i < s.len() ==> (#[trigger] t.spec_wave()[i]) as int == spec_pcm16(
                            s[i] as int)
                }
            },
            r matches Err(e) ==> wav_error_cond(bytes@, e),
    {
        match AudioBuffer::with_wav(bytes) {
            Ok(buf) => {
                proof {
                    assert(buf.spec_channels() == 1);
                }
                let t = SampleTrigger::new(Arc::new(buf));
                proof {
                    let s = wav_samples_of(bytes@)->Some_0;
                    assert forall|i: int| 0 <= i < s.len() implies (#[trigger] t.spec_wave()[i])
                        as int == spec_pcm16(s[i] as int) by {
                        assert(t.spec_wave()[i] == buf.sample_at(0, i));
                    }
                }
                Ok(t)
            },
            Err(e) => Err(e),
        }
    }

    /// Starts playing the waveform from the beginning, without waiting
    /// for a note-on.
    pub fn start(&mut self)
        ensures
            final(self).spec_cursor() == Some(0int),
            final(self).spec_wave() == old(self).spec_wave(),
            final(self).spec_wf() == old(self).spec_wf(),
    {
        self.index = Some(0);
    }

    /// Reports whether the waveform is currently playing: true from a
    /// start or note-on until the waveform is exhausted.
    pub fn is_active(&self) -> (r: bool)
        ensures
            r == (self.spec_cursor() is Some),
    {
        self.index.is_some()
    }

    /// Renders one callback's worth of frames: scans the events in frame
    /// order for note-ons, plays the waveform through the cursor into
    /// the first channel, and fans the first channel out to every
    /// channel.
    pub fn process(&mut self, midi: &EventSequence, output: &mut AudioBuffer) -> (r: Result<
        (),
        PluginProcessError,
    >)
        requires
            old(self).spec_wf(),
            midi.spec_wf(),
            old(output).spec_wf(),
            old(output).spec_channels() >= 1,
        ensures
            r is Ok,
            final(self).spec_wf(),
            final(self).spec_wave() == old(self).spec_wave(),
            final(output).spec_wf(),
            final(output).same_shape(old(output)),
            forall|c: int, f: int|
                0 <= c < final(output).spec_channels()
                    && 0 <= f < final(output).spec_buffer_size()
                    ==> #[trigger] final(output).sample_at(c, f) == trig_output(
                    old(self).spec_wave(),
                    old(self).spec_cursor(),
                    midi@,
                    f,
                ),
            final(self).spec_cursor() == trig_cursor(
                old(self).spec_wave(),
                old(self).spec_cursor(),
                midi@,
                old(output).spec_buffer_size() as nat,
            ),
    {
        let frames: usize = output.buffer_size();
        let n: usize = midi.len();
        let ghost wave = self.spec_wave();
        let ghost c0 = self.spec_cursor();
        let wave_len: usize = if self.sample.channels() >= 1 {
            self.sample.buffer_size()
        } else {
            0
        };
        proof {
            assert(wave.len() == wave_len);
        }
        let mut ptr: usize = 0;
        let mut f: usize = 0;
        while f < frames
            invariant
                f <= frames,
                ptr <= n,
                n == midi@.len(),
                midi.spec_wf(),
                self.spec_wf(),
                self.spec_wave() == wave,
                wave_len == wave.len(),
                wave_len > 0 ==> self.sample.spec_channels() >= 1 && self.sample.spec_buffer_size()
                    == wave_len,
                self.spec_cursor() == trig_cursor(wave, c0, midi@, f as nat),
                output.spec_wf(),
                output.same_shape(old(output)),
                frames == output.spec_buffer_size(),
                output.spec_channels() >= 1,
                forall|k: int| 0 <= k < ptr ==> (#[trigger] midi@[k]).0 < f,
                forall|k: int| ptr <= k < n ==> (#[trigger] midi@[k]).0 >= f,
                forall|c: int, ff: int|
                    0 <= c < output.spec_channels() && 0 <= ff < frames
                        ==> #[trigger] output.sample_at(c, ff) == if c == 0 && ff < f {
                            trig_output(wave, c0, midi@, ff)
                        } else {
                            old(output).sample_at(c, ff)
                        },
            decreases frames - f,
        {
            let ghost ptr0 = ptr;
            let mut fired: bool = false;
            while ptr < n && midi.frame(ptr) as usize == f
                invariant
                    ptr0 <= ptr <= n,
                    n == midi@.len(),
                    midi.spec_wf(),
                    f <= frames,
                    forall|k: int| 0 <= k < ptr ==> (#[trigger] midi@[k]).0 <= f,
                    forall|k: int| ptr <= k < n ==> (#[trigger] midi@[k]).0 >= f,
                    fired == exists|k: int|
                        0 <= k < ptr && (#[trigger] midi@[k]).0 == f && crate::midi::spec_note_on_velocity(
                            midi@[k].1,
                        ) is Some,
                decreases n - ptr,
            {
                let vel = midi.note_on_velocity(ptr);
                if vel.is_some() {
                    fired = true;
                    proof {
                        assert(midi@[ptr as int].0 == f && crate::midi::spec_note_on_velocity(
                            midi@[ptr as int].1,
                        ) is Some);
                    }
                }
                ptr = ptr + 1;
            }
            proof {
                assert(fired == fires_note_on_in(midi@, f as int)) by {
                    if fired {
                        let k = choose|k: int|
                            0 <= k < ptr && (#[trigger] midi@[k]).0 == f
                                && crate::midi::spec_note_on_velocity(midi@[k].1) is Some;
                        assert(0 <= k < midi@.len() && midi@[k].0 == f
                            && crate::midi::spec_note_on_velocity(midi@[k].1) is Some);
                    } else {
                        assert forall|k: int|
                            0 <= k < midi@.len() && (#[trigger] midi@[k]).0 == f as int implies !(
                        crate::midi::spec_note_on_velocity(midi@[k].1) is Some) by {
                            if k >= ptr {
                                assert(ptr < n);
                                assert(midi@[ptr as int].0 <= midi@[k].0);
                            }
                        }
                    }
                }
            }
            if fired {
                self.index = Some(0);
            }
            proof {
                assert(self.spec_cursor() == trig_fire(
                    trig_cursor(wave, c0, midi@, f as nat),
                    fires_note_on_in(midi@, f as int),
                ));
            }
            let ghost mid = self.spec_cursor();
            let out_val: i64;
            match self.index {
                Some(i) => {
                    if i < wave_len {
                        out_val = self.sample.sample(0, i);
                        self.index = Some(i + 1);
                        proof {
                            assert(out_val == wave[i as int]);
                        }
                    } else {
                        out_val = 0;
                        self.index = None;
                    }
                },
                None => {
                    out_val = 0;
                },
            }
            proof {
                assert(out_val == trig_out(wave, mid));
                assert(self.spec_cursor() == trig_next(wave, mid));
                assert(trig_cursor(wave, c0, midi@, (f + 1) as nat) == trig_next(
                    wave,
                    trig_fire(trig_cursor(wave, c0, midi@, f as nat), fires_note_on_in(
                        midi@,
                        f as int,
                    )),
                ));
                assert(out_val == trig_output(wave, c0, midi@, f as int));
            }
            let ghost before_write = *output;
            output.set_sample(0, f, out_val);
            proof {
                assert forall|c: int, ff: int|
                    0 <= c < output.spec_channels() && 0 <= ff
                        < frames implies #[trigger] output.sample_at(c, ff) == if c == 0 && ff < f
                    + 1 {
                    trig_output(wave, c0, midi@, ff)
                } else {
                    old(output).sample_at(c, ff)
                } by {
                    if c == 0 && ff == f as int {
                    } else {
                        assert(output.sample_at(c, ff) == before_write.sample_at(c, ff));
                    }
                }
            }
            f = f + 1;
        }
        output.copy_first_channel_to_all();
        proof {
            assert forall|c: int, ff: int|
                0 <= c < output.spec_channels() && 0 <= ff
                    < output.spec_buffer_size() implies #[trigger] output.sample_at(c, ff)
                == trig_output(wave, c0, midi@, ff) by {}
        }
        Ok(())
    }
}

impl Clone for SampleTrigger {
    /// Clones the trigger: the waveform handle is shared, so the clone
    /// equals the original.
    fn clone(&self) -> (r: SampleTrigger)
        ensures
            r == *self,
    {
        SampleTrigger { sample: arc_clone(&self.sample), index: self.index }
    }
}

/// What installing a hosted render result leaves behind: an error is
/// propagated with the output untouched; a rendered buffer is installed
/// only when it is well formed with the requested stereo shape; any
/// other rendered buffer is replaced by silence of that shape.
pub open spec fn hosted_render_outcome(
    before: AudioBuffer,
    after: AudioBuffer,
    r: Result<(), PluginProcessError>,
    rendered: Result<AudioBuffer, PluginProcessError>,
    samples: int,
) -> bool {
    match rendered {
        Err(e) => r == Err::<(), PluginProcessError>(e) && after == before,
        Ok(b) => r is Ok && if b.spec_wf() && b.spec_channels() == 2 && b.spec_buffer_size()
            == samples {
            after == b
        } else {
            &&& after.spec_wf()
            &&& after.spec_channels() == 2
            &&& after.spec_buffer_size() == samples
            &&& after.all_zero()
        },
    }
}

/// Installs a hosted runtime's render result into a chain's output
/// buffer, deciding for every possible result: the behavior is exactly
/// [`hosted_render_outcome`].
pub fn install_hosted_render(
    rendered: Result<AudioBuffer, PluginProcessError>,
    samples: usize,
    output: &mut AudioBuffer,
) -> (r: Result<(), PluginProcessError>)
    requires
        2 * samples <= usize::MAX,
    ensures
        hosted_render_outcome(*old(output), *final(output), r, rendered, samples as int),
{
    match rendered {
        Ok(b) => {
            if b.is_well_formed() && b.channels() == 2 && b.buffer_size() == samples {
                *output = b;
            } else {
                *output = AudioBuffer::new(2, samples);
            }
            Ok(())
        },
        Err(e) => Err(e),
    }
}

/// What the engine reads of a module instantiated by the external plugin
/// hosting runtime: an identifier for the handle the runtime keeps, and
/// the module's fixed port counts.
#[derive(Copy, Clone, Debug, PartialEq, Eq, Structural)]
pub struct HostedPlugin {
    /// The identifier under which the hosting runtime knows the module.
    pub module_id: u64,
    /// The number of audio input ports the module declares.
    pub audio_inputs: usize,
    /// The number of audio output ports the module declares.
    pub audio_outputs: usize,
    /// The number of event-sequence input ports the module declares.
    pub atom_sequence_inputs: usize,
}

/// The externally provided plugin hosting runtime.  The engine delegates
/// the rendering of a hosted plugin to it and trusts nothing about the
/// result: whatever buffer comes back is checked for shape before use,
/// and any error disables the owning track.
pub trait HostedRuntime {
    /// Renders `samples` frames of the hosted module `plugin`, reading
    /// the shared event input and the chain's audio input.
    fn run(
        &mut self,
        plugin: &HostedPlugin,
        midi: &EventSequence,
        input: &AudioBuffer,
        samples: usize,
    ) -> Result<AudioBuffer, PluginProcessError>;
}

/// The runtime of an engine with no plugin host attached: every hosted
/// render fails, so a track holding a hosted plugin is disabled on its
/// first callback.
#[derive(Debug)]
pub struct UnavailableRuntime;

impl HostedRuntime for UnavailableRuntime {
    fn run(
        &mut self,
        _plugin: &HostedPlugin,
        _midi: &EventSequence,
        _input: &AudioBuffer,
        _samples: usize,
    ) -> (r: Result<AudioBuffer, PluginProcessError>)
        ensures
            r is Err,
    {
        Err(PluginProcessError::Hosted)
    }
}

/// Stores a plugin instance: the closed set of processing units a track
/// can chain.
#[derive(Debug)]
pub enum PluginInstance {
    /// A sample is triggered for each note.
    Sample(SampleTrigger),
    /// A module instantiated by the external hosting runtime.
    Hosted(HostedPlugin),
}

impl From<SampleTrigger> for PluginInstance {
    fn from(value: SampleTrigger) -> (r: PluginInstance) {
        PluginInstance::Sample(value)
    }
}

impl vstd::std_specs::convert::FromSpecImpl<SampleTrigger> for PluginInstance {
    open spec fn obeys_from_spec() -> bool {
        true
    }

    open spec fn from_spec(v: SampleTrigger) -> PluginInstance {
        PluginInstance::Sample(v)
    }
}

impl From<HostedPlugin> for PluginInstance {
    fn from(value: HostedPlugin) -> (r: PluginInstance) {
        PluginInstance::Hosted(value)
    }
}

impl vstd::std_specs::convert::FromSpecImpl<HostedPlugin> for PluginInstance {
    open spec fn obeys_from_spec() -> bool {
        true
    }

    open spec fn from_spec(v: HostedPlugin) -> PluginInstance {
        PluginInstance::Hosted(v)
    }
}

impl PluginInstance {
    /// The well-formedness invariant of an instance.
    pub open spec fn spec_wf(&self) -> bool {
        match self {
            PluginInstance::Sample(t) => t.spec_wf(),
            PluginInstance::Hosted(_) => true,
        }
    }

    /// Runs the plugin processing for one callback.  A sample trigger
    /// renders exactly its waveform under the event input; a hosted
    /// plugin is rendered by the external runtime, whose output is used
    /// only when it has the requested shape, and whose error is
    /// propagated to the caller.
    pub fn process<R: HostedRuntime>(
        &mut self,
        samples: usize,
        midi: &EventSequence,
        input: &AudioBuffer,
        output: &mut AudioBuffer,
        runtime: &mut R,
    ) -> (r: Result<(), PluginProcessError>)
        requires
            old(self).spec_wf(),
            midi.spec_wf(),
            input.spec_wf(),
            old(output).spec_wf(),
            old(output).spec_channels() == 2,
            old(output).spec_buffer_size() == samples,
            2 * samples <= usize::MAX,
        ensures
            final(self).spec_wf(),
            final(output).spec_wf(),
            final(output).spec_channels() == 2,
            final(output).spec_buffer_size() == samples,
            *old(self) matches PluginInstance::Sample(t) ==> {
                &&& r is Ok
                &&& *final(self) matches PluginInstance::Sample(t2) && {
                    &&& t2.spec_wave() == t.spec_wave()
                    &&& t2.spec_cursor() == trig_cursor(
                        t.spec_wave(),
                        t.spec_cursor(),
                        midi@,
                        samples as nat,
                    )
                }
                &&& forall|c: int, ff: int|
                    0 <= c < 2 && 0 <= ff < samples ==> #[trigger] final(output).sample_at(c, ff)
                        == trig_output(t.spec_wave(), t.spec_cursor(), midi@, ff)
            },
            *old(self) matches PluginInstance::Hosted(h) ==> {
                &&& *final(self) == *old(self)
                &&& exists|rendered: Result<AudioBuffer, PluginProcessError>|
                    #[trigger] hosted_render_outcome(
                        *old(output),
                        *final(output),
                        r,
                        rendered,
                        samples as int,
                    )
                &&& r is Err ==> final(output).same_shape(old(output)) && forall|c: int, i: int|
                    0 <= c < 2 && 0 <= i < samples ==> #[trigger] final(output).sample_at(c, i)
                        == old(output).sample_at(c, i)
            },
    {
        match self {
            PluginInstance::Sample(trigger) => trigger.process(midi, output),
            PluginInstance::Hosted(h) => {
                let rendered = runtime.run(h, midi, input, samples);
                let ghost rendered_snapshot = rendered;
                let r = install_hosted_render(rendered, samples, output);
                proof {
                    assert(hosted_render_outcome(
                        *old(output),
                        *output,
                        r,
                        rendered_snapshot,
                        samples as int,
                    ));
                }
                r
            },
        }
    }
}

} // verus!
