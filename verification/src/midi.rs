//! Recognition and generation of the MIDI messages the engine cares
//! about: note-on messages trigger one-shot samples, and the metronome
//! emits a fixed note-on for every tick.

use vstd::prelude::*;

verus! {

/// The velocity of a note-on message, or `None` when the bytes are not a
/// note-on with a positive velocity.  A note-on is a status byte in
/// `0x90..=0x9f` followed by at least two data bytes below `0x80`; a zero
/// velocity denotes a note-off.
pub open spec fn spec_note_on_velocity(data: Seq<u8>) -> Option<u8> {
    if data.len() >= 3 && 0x90 <= data[0] <= 0x9f && data[1] < 0x80 && 0 < data[2] < 0x80 {
        Some(data[2])
    } else {
        None
    }
}

/// Relies on `wmidi::MidiMessage::try_from`: a slice whose status byte is
/// in `0x90..=0x9f`, followed by two data bytes below `0x80`, parses as a
/// note-on exactly when the velocity byte is positive; trailing bytes are
/// ignored, and a zero velocity parses as a note-off.
#[verifier::external_body]
pub(crate) fn parse_note_on_velocity(data: &[u8]) -> (r: Option<u8>)
    ensures
        r == spec_note_on_velocity(data@),
{
    match wmidi::MidiMessage::try_from(data) {
        Ok(wmidi::MidiMessage::NoteOn(_, _, v)) => Some(u8::from(v)),
        _ => None,
    }
}

/// The bytes of the note the metronome emits on every tick: a note-on for
/// note A0 on channel one at full velocity.
pub open spec fn spec_tick_note_bytes() -> Seq<u8> {
    seq![0x90u8, 0x15u8, 0x7fu8]
}

/// Relies on `wmidi::MidiMessage::copy_to_slice`: the message
/// `NoteOn(Ch1, A0, U7::MAX)` serializes to the three bytes
/// `0x90 0x15 0x7f`.
#[verifier::external_body]
pub(crate) fn tick_note_bytes() -> (r: Vec<u8>)
    ensures
        r@ == spec_tick_note_bytes(),
{
    let msg = wmidi::MidiMessage::NoteOn(wmidi::Channel::Ch1, wmidi::Note::A0, wmidi::U7::MAX);
    let mut data = [0u8; 3];
    let _ = msg.copy_to_slice(&mut data);
    vec![data[0], data[1], data[2]]
}

/// The metronome's tick note is recognized as a note-on at full velocity,
/// so it reliably starts the click sample.
pub proof fn lemma_tick_note_is_note_on()
    ensures
        spec_note_on_velocity(spec_tick_note_bytes()) == Some(0x7fu8),
{
    assert(spec_tick_note_bytes()[0] == 0x90u8);
    assert(spec_tick_note_bytes()[1] == 0x15u8);
    assert(spec_tick_note_bytes()[2] == 0x7fu8);
}

} // verus!
