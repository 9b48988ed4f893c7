//! Timestamped short MIDI messages and how the host tells them apart.

use vstd::prelude::*;

verus! {

/// A frame offset within the current buffer and a three-byte MIDI message.
pub type MidiEvent = (u64, [u8; 3]);

/// The message type: the status byte without its channel nibble.
pub open spec fn status_type(ev: MidiEvent) -> u8 {
    ev.1[0] & 0xF0
}

/// A note-on that starts a note. Velocity 0 stops one instead.
pub open spec fn is_note_on(ev: MidiEvent) -> bool {
    status_type(ev) == 0x90 && ev.1[2] > 0
}

/// A note-off, or a note-on with velocity 0.
pub open spec fn is_note_off(ev: MidiEvent) -> bool {
    status_type(ev) == 0x80 || (status_type(ev) == 0x90 && ev.1[2] == 0)
}

/// Any note message, on or off.
pub open spec fn is_note(ev: MidiEvent) -> bool {
    status_type(ev) == 0x80 || status_type(ev) == 0x90
}

/// What a message means to the note-tracking parts of the host.
#[derive(Clone, Copy, Debug, PartialEq, Eq, Structural)]
pub enum NoteEdge {
    On,
    Off,
    Neither,
}

/// The note edge of a message.
pub open spec fn note_edge(ev: MidiEvent) -> NoteEdge {
    if is_note_on(ev) {
        NoteEdge::On
    } else if is_note_off(ev) {
        NoteEdge::Off
    } else {
        NoteEdge::Neither
    }
}

/// Classify a message as a note start, a note stop, or something else.
pub fn classify(ev: &MidiEvent) -> (edge: NoteEdge)
    ensures
        edge == note_edge(*ev),
{
    let status: u8 = ev.1[0] & 0xF0;
    if status == 0x90 && ev.1[2] > 0 {
        NoteEdge::On
    } else if status == 0x80 || status == 0x90 {
        NoteEdge::Off
    } else {
        NoteEdge::Neither
    }
}

} // verus!
