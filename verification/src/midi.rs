//! Incoming MIDI: which ports are opened and what becomes of a message.

use vstd::prelude::*;

use crate::config::{text_list, text_view};
use crate::event::MidiEvent;
use crate::midi_monitor::{bytes_text, detail_of};
use crate::notes::{note_name, note_text};
use crate::text::{dec, has_part, holds, push_dec, same_text};

verus! {

// ---------------------------------------------------------------------------
// Messages
// ---------------------------------------------------------------------------

/// What a message changes of the keys that are held.
#[derive(Clone, Copy, Debug, PartialEq, Eq, Structural)]
pub enum HeldChange {
    Press(u8),
    Lift(u8),
}

/// What becomes of a message.
#[derive(Clone, Copy, Debug)]
pub struct Reaction {
    pub held: Option<HeldChange>,
    /// The event for the audio thread, at the start of the next buffer.
    pub event: Option<MidiEvent>,
}

/// The note of a note-on message.
pub open spec fn note_struck(bytes: Seq<u8>) -> Option<u8> {
    if bytes.len() >= 3 && bytes[0] & 0xF0 == 0x90 && bytes[2] > 0 {
        Some(bytes[1])
    } else {
        None
    }
}

/// What a message changes of the keys that are held. A note-on without
/// velocity lifts the key.
pub open spec fn held_change(bytes: Seq<u8>) -> Option<HeldChange> {
    if bytes.len() < 3 {
        None
    } else if bytes[0] & 0xF0 == 0x90 && bytes[2] > 0 {
        Some(HeldChange::Press(bytes[1]))
    } else if bytes[0] & 0xF0 == 0x90 || bytes[0] & 0xF0 == 0x80 {
        Some(HeldChange::Lift(bytes[1]))
    } else {
        None
    }
}

/// A message of at most three bytes as an event, filled up with zeros. Longer
/// messages are passed over.
pub open spec fn event_of(bytes: Seq<u8>) -> Option<MidiEvent> {
    if 1 <= bytes.len() <= 3 {
        Some(
            (
                0u64,
                [
                    bytes[0],
                    if bytes.len() > 1 {
                        bytes[1]
                    } else {
                        0
                    },
                    if bytes.len() > 2 {
                        bytes[2]
                    } else {
                        0
                    },
                ],
            ),
        )
    } else {
        None
    }
}

/// The note of a note-on message, which the scale lock is asked about.
pub fn struck_note(bytes: &[u8]) -> (note: Option<u8>)
    ensures
        note == note_struck(bytes@),
{
    if bytes.len() >= 3 && bytes[0] & 0xF0 == 0x90 && bytes[2] > 0 {
        Some(bytes[1])
    } else {
        None
    }
}

/// What becomes of a message, if the scale lock blocks its note or does not. A
/// note-on that is blocked goes nowhere; a note-off always passes.
pub fn react(bytes: &[u8], blocked: bool) -> (r: Reaction)
    ensures
        if note_struck(bytes@) is Some && blocked {
            r.held is None && r.event is None
        } else {
            &&& r.held == held_change(bytes@)
            &&& match (r.event, event_of(bytes@)) {
                (Some(e), Some(m)) => e.0 == m.0 && e.1@ =~= m.1@,
                (None, None) => true,
                _ => false,
            }
        },
{
    if struck_note(bytes).is_some() && blocked {
        return Reaction { held: None, event: None };
    }
    let held: Option<HeldChange> = if bytes.len() < 3 {
        None
    } else if bytes[0] & 0xF0 == 0x90 && bytes[2] > 0 {
        Some(HeldChange::Press(bytes[1]))
    } else if bytes[0] & 0xF0 == 0x90 || bytes[0] & 0xF0 == 0x80 {
        Some(HeldChange::Lift(bytes[1]))
    } else {
        None
    };
    let event: Option<MidiEvent> = if bytes.len() >= 1 && bytes.len() <= 3 {
        let second: u8 = if bytes.len() > 1 {
            bytes[1]
        } else {
            0
        };
        let third: u8 = if bytes.len() > 2 {
            bytes[2]
        } else {
            0
        };
        Some((0, [bytes[0], second, third]))
    } else {
        None
    };
    Reaction { held, event }
}

/// The kind of a message, in seven letters.
pub open spec fn short_kind(status: u8) -> Seq<char> {
    let kind = status & 0xF0;
    if kind == 0x90 {
        "NoteOn "@
    } else if kind == 0x80 {
        "NoteOff"@
    } else if kind == 0xB0 {
        "CC     "@
    } else if kind == 0xE0 {
        "Bend   "@
    } else if kind == 0xD0 {
        "ChanPrs"@
    } else if kind == 0xA0 {
        "KeyPrs "@
    } else if kind == 0xC0 {
        "PgmChg "@
    } else {
        "Other  "@
    }
}

/// A message as a line for the log.
pub open spec fn message_text(port: Seq<char>, bytes: Seq<u8>) -> Seq<char> {
    let kind = bytes[0] & 0xF0;
    let note = if (kind == 0x90 || kind == 0x80) && bytes.len() >= 2 {
        seq![' '] + note_text(bytes[1])
    } else {
        Seq::empty()
    };
    "MIDI in  ["@ + port + "] "@ + short_kind(bytes[0]) + " ch="@ + dec((bytes[0] & 0x0F) as nat)
        + note + " data="@ + bytes_text(bytes)
}

fn kind_name(status: u8) -> (name: &'static str)
    ensures
        name@ == short_kind(status),
{
    match status & 0xF0 {
        0x90 => "NoteOn ",
        0x80 => "NoteOff",
        0xB0 => "CC     ",
        0xE0 => "Bend   ",
        0xD0 => "ChanPrs",
        0xA0 => "KeyPrs ",
        0xC0 => "PgmChg ",
        _ => "Other  ",
    }
}

/// A message as a line for the log.
pub fn describe_message(port: &str, bytes: &[u8]) -> (line: String)
    requires
        bytes@.len() > 0,
    ensures
        line@ == message_text(port@, bytes@),
{
    let mut line: String = "MIDI in  [".to_owned();
    line.append(port);
    line.append("] ");
    line.append(kind_name(bytes[0]));
    line.append(" ch=");
    push_dec(&mut line, (bytes[0] & 0x0F) as u64);
    let kind: u8 = bytes[0] & 0xF0;
    let ghost before = line@;
    if (kind == 0x90 || kind == 0x80) && bytes.len() >= 2 {
        line.push(' ');
        line.append(note_name(bytes[1]).as_str());
        assert(line@ =~= before + (seq![' '] + note_text(bytes@[1])));
    } else {
        assert(line@ =~= before + Seq::<char>::empty());
    }
    line.append(" data=");
    line.append(detail_of(bytes).as_str());
    line
}

// ---------------------------------------------------------------------------
// Ports
// ---------------------------------------------------------------------------

/// The input ports that are open.
#[derive(Debug)]
pub struct MidiManager {
    device_filter: Option<String>,
    connected_names: Vec<String>,
}

impl MidiManager {
    /// What the name of a port must hold.
    pub closed spec fn filter(&self) -> Option<Seq<char>> {
        text_view(self.device_filter)
    }

    /// The names of the open ports, in the order of opening.
    pub closed spec fn names(&self) -> Seq<Seq<char>> {
        text_list(self.connected_names@)
    }

    /// No port is open twice.
    pub open spec fn wf(&self) -> bool {
        self.names().no_duplicates()
    }

    /// A port is to be opened: it is not open yet, and its name passes the
    /// filter.
    pub open spec fn eligible(&self, name: Seq<char>) -> bool {
        !self.names().contains(name) && match self.filter() {
            Some(part) => holds(name, part),
            None => true,
        }
    }

    /// No port is open.
    pub fn new(device_filter: Option<String>) -> (m: MidiManager)
        ensures
            m.wf(),
            m.filter() == text_view(device_filter),
            m.names() == Seq::<Seq<char>>::empty(),
    {
        let m = MidiManager { device_filter, connected_names: Vec::new() };
        assert(m.names() =~= Seq::empty());
        m
    }

    fn is_open(&self, name: &str) -> (r: bool)
        ensures
            r == self.names().contains(name@),
    {
        let mut i: usize = 0;
        while i < self.connected_names.len()
            invariant
                i <= self.connected_names.len(),
                forall|k: int| 0 <= k < i ==> self.names()[k] != name@,
            decreases self.connected_names.len() - i,
        {
            if same_text(self.connected_names[i].as_str(), name) {
                assert(self.names()[i as int] == name@);
                return true;
            }
            i += 1;
        }
        false
    }

    /// Whether a port is to be opened. One whose name cannot be had is not.
    pub fn wants(&self, name: &Option<String>) -> (r: bool)
        ensures
            r == (match *name {
                Some(n) => self.eligible(n@),
                None => false,
            }),
    {
        match name {
            Some(name) => {
                if self.is_open(name.as_str()) {
                    return false;
                }
                match &self.device_filter {
                    Some(part) => has_part(name.as_str(), part.as_str()),
                    None => true,
                }
            },
            None => false,
        }
    }

    /// Note how an attempt to open a port ended. One that failed is tried again
    /// the next time.
    pub fn attempted(&mut self, name: String, opened: bool)
        requires
            old(self).wf(),
            old(self).eligible(name@),
        ensures
            final(self).wf(),
            final(self).filter() == old(self).filter(),
            final(self).names() == (if opened {
                old(self).names().push(name@)
            } else {
                old(self).names()
            }),
    {
        if opened {
            let ghost before = self.names();
            let ghost added = name@;
            self.connected_names.push(name);
            assert(self.names() =~= before.push(added));
            assert forall|i: int, j: int|
                0 <= i < self.names().len() && 0 <= j < self.names().len() && i
                    != j implies self.names()[i] != self.names()[j] by {
                if i == before.len() {
                    assert(before.contains(before[j]));
                } else if j == before.len() {
                    assert(before.contains(before[i]));
                }
            }
        }
    }

    /// The number of open ports.
    pub fn connection_count(&self) -> (n: usize)
        ensures
            n == self.names().len(),
    {
        self.connected_names.len()
    }
}

// ---------------------------------------------------------------------------
// Laws
// ---------------------------------------------------------------------------

/// A key that a message presses is lifted by the note-off of the same note,
/// and both reach the audio thread, whatever the scale lock says of the
/// note-off.
pub proof fn lifting_follows_pressing(status: u8, note: u8, velocity: u8, off: u8)
    requires
        status & 0xF0 == 0x90,
        velocity > 0,
    ensures
        ({
            let on = seq![status, note, velocity];
            let lift = seq![((status & 0x0F) | 0x80) as u8, note, off];
            &&& note_struck(on) == Some(note)
            &&& held_change(on) == Some(HeldChange::Press(note))
            &&& event_of(on) is Some
            &&& note_struck(lift) is None
            &&& held_change(lift) == Some(HeldChange::Lift(note))
            &&& event_of(lift) is Some
        }),
{
    assert(((status & 0x0F) | 0x80) & 0xF0 == 0x80) by (bit_vector);
}

} // verus!
