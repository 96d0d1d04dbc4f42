//! The bounded, non-blocking queues that connect the non-real-time
//! control plane to the real-time audio thread: commands flow in, and
//! best-effort notifications flow out.

use vstd::prelude::*;

use crate::metronome::SampleTimeInfo;
use crate::plugin::{PluginInstance, SampleTrigger};
use crate::track::Track;

verus! {

/// The capacity of the command queue.
pub const COMMAND_QUEUE_CAPACITY: usize = 1024;

/// The capacity of the notification queue.
pub const NOTIFICATION_QUEUE_CAPACITY: usize = 2048;

/// Commands for the audio engine to execute.  Each is consumed exactly
/// once, in arrival order, at the start of a processing callback.
#[derive(Debug)]
pub enum Command {
    /// Add a new track.
    AddTrack(Track),
    /// Delete the track with the given id.
    DeleteTrack(i32),
    /// Add a plugin to the track with the given id.
    AddPluginToTrack(i32, PluginInstance),
    /// Delete the plugin at the given index from a track.
    DeletePlugin(i32, usize),
    /// Set metronome properties.
    SetMetronome { volume: i64, beats_per_minute: u32 },
    /// Arm a single track by id, disarming all others.
    ArmTrack(i32),
    /// Play a one-shot sound.
    PlaySound(SampleTrigger),
}

impl Command {
    /// The well-formedness invariant of a command: any track or plugin
    /// it carries is well formed.
    pub open spec fn spec_wf(&self) -> bool {
        match self {
            Command::AddTrack(t) => t.spec_wf(),
            Command::AddPluginToTrack(_, p) => p.spec_wf(),
            Command::PlaySound(t) => t.spec_wf(),
            _ => true,
        }
    }
}

/// Notifications from the audio thread to the control plane, delivered
/// best-effort.
#[derive(Clone, Debug, PartialEq, Eq, Structural)]
pub enum Notifications {
    /// The timing state at the end of a processing callback.
    TimeInfo(SampleTimeInfo),
}

/// The bounded FIFO queue carrying commands from the control plane to
/// the audio thread.  A send onto a full queue is refused.
#[derive(Debug)]
pub struct CommandQueue {
    items: Vec<Command>,
}

impl View for CommandQueue {
    type V = Seq<Command>;

    closed spec fn view(&self) -> Seq<Command> {
        self.items@
    }
}

impl CommandQueue {
    /// The queue invariant: within capacity, and every queued command is
    /// well formed.
    pub open spec fn spec_wf(&self) -> bool {
        &&& self@.len() <= COMMAND_QUEUE_CAPACITY
        &&& forall|k: int| 0 <= k < self@.len() ==> (#[trigger] self@[k]).spec_wf()
    }

    /// Creates an empty command queue.
    pub fn new() -> (r: CommandQueue)
        ensures
            r@.len() == 0,
            r.spec_wf(),
    {
        CommandQueue { items: Vec::new() }
    }

    /// The number of queued commands.
    pub fn len(&self) -> (r: usize)
        ensures
            r == self@.len(),
    {
        self.items.len()
    }

    /// Enqueues a command; a command sent onto a full queue is refused
    /// and the queue is unchanged.
    pub fn send(&mut self, command: Command) -> (accepted: bool)
        requires
            old(self).spec_wf(),
            command.spec_wf(),
        ensures
            final(self).spec_wf(),
            accepted == (old(self)@.len() < COMMAND_QUEUE_CAPACITY),
            accepted ==> final(self)@ == old(self)@.push(command),
            !accepted ==> final(self)@ == old(self)@,
    {
        if self.items.len() < COMMAND_QUEUE_CAPACITY {
            self.items.push(command);
            true
        } else {
            false
        }
    }

    /// Takes every queued command, in arrival order, leaving the queue
    /// empty.
    pub fn take_all(&mut self) -> (r: Vec<Command>)
        requires
            old(self).spec_wf(),
        ensures
            final(self).spec_wf(),
            final(self)@.len() == 0,
            r@ == old(self)@,
    {
        let mut drained: Vec<Command> = Vec::new();
        core::mem::swap(&mut self.items, &mut drained);
        drained
    }
}

/// The bounded queue carrying notifications from the audio thread to the
/// control plane.  A notification published onto a full queue is
/// silently dropped; the producer never blocks.
#[derive(Debug)]
pub struct NotificationQueue {
    items: Vec<Notifications>,
}

impl View for NotificationQueue {
    type V = Seq<Notifications>;

    closed spec fn view(&self) -> Seq<Notifications> {
        self.items@
    }
}

impl NotificationQueue {
    /// The queue invariant: within capacity.
    pub open spec fn spec_wf(&self) -> bool {
        self@.len() <= NOTIFICATION_QUEUE_CAPACITY
    }

    /// Creates an empty notification queue.
    pub fn new() -> (r: NotificationQueue)
        ensures
            r@.len() == 0,
            r.spec_wf(),
    {
        NotificationQueue { items: Vec::new() }
    }

    /// The number of queued notifications.
    pub fn len(&self) -> (r: usize)
        ensures
            r == self@.len(),
    {
        self.items.len()
    }

    /// Publishes a notification without blocking: on overflow it is
    /// dropped and no error surfaces to the producer.
    pub fn try_send(&mut self, notification: Notifications)
        requires
            old(self).spec_wf(),
        ensures
            final(self).spec_wf(),
            old(self)@.len() < NOTIFICATION_QUEUE_CAPACITY ==> final(self)@ == old(self)@.push(
                notification,
            ),
            old(self)@.len() >= NOTIFICATION_QUEUE_CAPACITY ==> final(self)@ == old(self)@,
    {
        if self.items.len() < NOTIFICATION_QUEUE_CAPACITY {
            self.items.push(notification);
        }
    }

    /// Receives the oldest pending notification, if any.
    pub fn poll(&mut self) -> (r: Option<Notifications>)
        requires
            old(self).spec_wf(),
        ensures
            final(self).spec_wf(),
            old(self)@.len() == 0 ==> r is None && final(self)@ == old(self)@,
            old(self)@.len() > 0 ==> r == Some(old(self)@[0]) && final(self)@ == old(
                self,
            )@.subrange(1, old(self)@.len() as int),
    {
        if self.items.len() > 0 {
            let n = self.items.remove(0);
            proof {
                assert(self@ =~= old(self)@.subrange(1, old(self)@.len() as int));
            }
            Some(n)
        } else {
            None
        }
    }
}

} // verus!
