//! The engine's internal event-sequence representation: timestamped MIDI
//! messages ordered by frame, as one processing callback sees them.

use vstd::prelude::*;

use crate::midi::{parse_note_on_velocity, spec_note_on_velocity};

verus! {

/// Some event of `ev` at exactly frame `f` is a note-on with a positive
/// velocity.
pub open spec fn fires_note_on_in(ev: Seq<(u32, Seq<u8>)>, f: int) -> bool {
    exists|k: int|
        0 <= k < ev.len() && (#[trigger] ev[k]).0 == f && spec_note_on_velocity(ev[k].1) is Some
}

/// One timestamped MIDI message: the frame offset inside the current
/// callback, and the raw message bytes.
#[derive(Debug)]
pub struct MidiEvent {
    /// The frame offset of the event inside the callback.
    pub frame: u32,
    /// The raw MIDI bytes of the event.
    pub data: Vec<u8>,
}

/// An ordered sequence of timestamped MIDI events.  Events are kept in
/// nondecreasing frame order; a push out of order is refused.
#[derive(Debug)]
pub struct EventSequence {
    events: Vec<MidiEvent>,
}

impl View for EventSequence {
    type V = Seq<(u32, Seq<u8>)>;

    closed spec fn view(&self) -> Seq<(u32, Seq<u8>)> {
        Seq::new(self.events@.len(), |k: int| (self.events@[k].frame, self.events@[k].data@))
    }
}

impl EventSequence {
    /// The frame order invariant: frames never decrease along the
    /// sequence.
    pub open spec fn spec_wf(&self) -> bool {
        forall|j: int, k: int| 0 <= j <= k < self@.len() ==> self@[j].0 <= self@[k].0
    }

    /// Some event at exactly frame `f` is a note-on with a positive
    /// velocity.
    pub open spec fn fires_note_on(&self, f: int) -> bool {
        fires_note_on_in(self@, f)
    }

    /// Creates an empty event sequence.
    pub fn new() -> (r: EventSequence)
        ensures
            r@.len() == 0,
            r.spec_wf(),
    {
        EventSequence { events: Vec::new() }
    }

    /// Removes every event.
    pub fn clear(&mut self)
        ensures
            final(self)@.len() == 0,
            final(self).spec_wf(),
    {
        self.events.clear();
    }

    /// The number of events.
    pub fn len(&self) -> (r: usize)
        ensures
            r == self@.len(),
    {
        self.events.len()
    }

    /// The frame offset of event `k`.
    pub fn frame(&self, k: usize) -> (r: u32)
        requires
            k < self@.len(),
        ensures
            r == self@[k as int].0,
    {
        self.events[k].frame
    }

    /// The velocity of event `k` when it is a note-on with a positive
    /// velocity.
    pub fn note_on_velocity(&self, k: usize) -> (r: Option<u8>)
        requires
            k < self@.len(),
        ensures
            r == spec_note_on_velocity(self@[k as int].1),
    {
        parse_note_on_velocity(self.events[k].data.as_slice())
    }

    /// The raw bytes of event `k`.
    pub fn data(&self, k: usize) -> (r: &Vec<u8>)
        requires
            k < self@.len(),
        ensures
            r@ == self@[k as int].1,
    {
        &self.events[k].data
    }

    /// Appends an event when it keeps the frame order, and refuses it
    /// otherwise.
    pub fn push(&mut self, frame: u32, data: Vec<u8>) -> (accepted: bool)
        requires
            old(self).spec_wf(),
        ensures
            final(self).spec_wf(),
            accepted == (old(self)@.len() == 0 || frame >= old(self)@.last().0),
            accepted ==> final(self)@ == old(self)@.push((frame, data@)),
            !accepted ==> final(self)@ == old(self)@,
    {
        let n: usize = self.events.len();
        if n == 0 || frame >= self.events[n - 1].frame {
            let ghost prev = self@;
            self.events.push(MidiEvent { frame, data });
            proof {
                assert(self@ =~= prev.push((frame, self.events@.last().data@)));
                assert forall|j: int, k: int|
                    0 <= j <= k < self@.len() implies self@[j].0 <= self@[k].0 by {
                    if k < self@.len() - 1 {
                        assert(prev[j].0 <= prev[k].0);
                    } else if j < self@.len() - 1 {
                        assert(prev[j].0 <= prev[prev.len() - 1].0);
                    }
                }
            }
            true
        } else {
            false
        }
    }
}

} // verus!
