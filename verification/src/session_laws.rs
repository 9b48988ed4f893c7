//! What the names and tables of a session file stand for.

use vstd::prelude::*;

use crate::config::{InstrumentSlotConfig, Preset, SessionConfig};
use crate::notes::{
    note_message, note_of, octave_of, octave_text, range_message, range_of, NoteError, RangeError,
};
use crate::session::{
    events_of, first_error, group_loaded, is_default_session, pattern_message, pattern_of,
    preset_meant, preset_named, preset_with_id, session_loaded, slot_loaded, status_of,
    transpose_mode, EventRawModel, InstrumentSlotRaw, PatternError, PatternModel, PatternRawModel,
    SessionError, SessionRaw,
};
use crate::text::{all_digits, dec, dec_reads_back, holds, is_digit, part_at};

verus! {

// ---------------------------------------------------------------------------
// Notes
// ---------------------------------------------------------------------------

/// Semitones from C up to a note letter, capital or small.
pub open spec fn steps_above_c(letter: char) -> Option<int> {
    if letter == 'C' || letter == 'c' {
        Some(0)
    } else if letter == 'D' || letter == 'd' {
        Some(2)
    } else if letter == 'E' || letter == 'e' {
        Some(4)
    } else if letter == 'F' || letter == 'f' {
        Some(5)
    } else if letter == 'G' || letter == 'g' {
        Some(7)
    } else if letter == 'A' || letter == 'a' {
        Some(9)
    } else if letter == 'B' || letter == 'b' {
        Some(11)
    } else {
        None
    }
}

/// The mark for a semitone up, down or neither.
pub open spec fn mark(shift: int) -> Seq<char> {
    if shift > 0 {
        seq!['#']
    } else if shift < 0 {
        seq!['b']
    } else {
        Seq::empty()
    }
}

proof fn octaves_read_back(octave: int)
    requires
        -128 <= octave <= 127,
    ensures
        octave_of(octave_text(octave)) == Some(octave),
        octave_text(octave).len() > 0,
        octave_text(octave)[0] == '-' || is_digit(octave_text(octave)[0]),
{
    let s = octave_text(octave);
    if octave < 0 {
        let d = dec((-octave) as nat);
        dec_reads_back((-octave) as nat);
        assert(s.drop_first() =~= d);
    } else {
        dec_reads_back(octave as nat);
        assert(is_digit(dec(octave as nat)[0]));
    }
}

/// A note name counts semitones: twelve for each octave, the first of which is
/// -1, those of the letter and one up or down for its mark. A count outside
/// 0..=127 is out of range. Capitals and small letters mean the same.
pub proof fn note_names_count_semitones(letter: char, shift: int, octave: int)
    requires
        steps_above_c(letter) is Some,
        -1 <= shift <= 1,
        -128 <= octave <= 127,
    ensures
        ({
            let name = seq![letter] + mark(shift) + octave_text(octave);
            let n = 12 * (octave + 1) + steps_above_c(letter)->0 + shift;
            note_of(name) == (if 0 <= n <= 127 {
                Ok::<u8, NoteError>(n as u8)
            } else {
                Err(NoteError::OutOfRange)
            })
        }),
{
    let name = seq![letter] + mark(shift) + octave_text(octave);
    octaves_read_back(octave);
    assert(name[0] == letter);
    if shift == 0 {
        assert(name[1] == octave_text(octave)[0]);
        assert(name.skip(1) =~= octave_text(octave));
    } else {
        assert(name[1] == mark(shift)[0]);
        assert(name.skip(2) =~= octave_text(octave));
    }
}

/// A text is no note name if it is empty, starts with another letter, or does not
/// go on with an octave number.
pub proof fn other_texts_are_no_notes(s: Seq<char>)
    ensures
        s.len() == 0 ==> note_of(s) == Err::<u8, NoteError>(NoteError::Empty),
        s.len() > 0 && steps_above_c(s[0]) is None ==> note_of(s) is Err && note_of(
            s,
        )->Err_0 is Letter,
        s.len() > 0 && (s[0] as int) < 0x80 && steps_above_c(s[0]) is None ==> note_of(s) == Err::<
            u8,
            NoteError,
        >(NoteError::Letter(s[0])),
        s.len() == 1 && steps_above_c(s[0]) is Some ==> note_of(s) == Err::<u8, NoteError>(
            NoteError::Octave,
        ),
        s.len() > 1 && steps_above_c(s[0]) is Some && !is_digit(s.last()) ==> note_of(s) == Err::<
            u8,
            NoteError,
        >(NoteError::Octave),
{
    if s.len() == 1 {
        assert(s.skip(1).len() == 0);
    }
    if s.len() > 1 && !is_digit(s.last()) {
        let width = crate::notes::accidental(s).0;
        let rest = s.skip(1 + width);
        if rest.len() > 0 {
            assert(rest.last() == s.last());
            let signed = rest[0] == '-' || rest[0] == '+';
            let digits = if signed {
                rest.drop_first()
            } else {
                rest
            };
            if digits.len() > 0 {
                assert(digits[digits.len() - 1] == s.last());
                assert(!all_digits(digits));
            }
        }
    }
}

// ---------------------------------------------------------------------------
// Patterns
// ---------------------------------------------------------------------------

/// A pattern keeps to the scale if its mode is "in_key", in one of three
/// spellings, and not if it is "chromatic" or left out; there are no other modes.
/// An event's status is "on" or "off".
pub proof fn modes_go_by_their_names(s: Seq<char>)
    ensures
        transpose_mode(None) == Some(false),
        transpose_mode(Some(s)) == Some(false) <==> s == "chromatic"@,
        transpose_mode(Some(s)) == Some(true) <==> s == "in_key"@ || s == "in-key"@ || s
            == "in key"@,
        status_of(s) is Some <==> s == "on"@ || s == "off"@,
        s == "on"@ ==> status_of(s) == Some(0x90u8),
        s == "off"@ ==> status_of(s) == Some(0x80u8),
{
    reveal_strlit("chromatic");
    reveal_strlit("in_key");
    reveal_strlit("in-key");
    reveal_strlit("in key");
    reveal_strlit("on");
    reveal_strlit("off");
    assert("chromatic"@.len() == 9 && "in_key"@.len() == 6 && "in-key"@.len() == 6
        && "in key"@.len() == 6);
    assert("on"@.len() == 2 && "off"@.len() == 3);
}

proof fn events_understood(events: Seq<EventRawModel>, n: nat, i: int)
    requires
        n <= events.len() <= usize::MAX,
    ensures
        match events_of(events, n) {
            Ok(out) => out.len() == n && (0 <= i < n ==> {
                &&& out[i].0 == events[i].frame
                &&& status_of(events[i].status) == Some(out[i].1)
                &&& note_of(events[i].note) == Ok::<u8, NoteError>(out[i].2)
                &&& out[i].3 == events[i].velocity
            }),
            Err(PatternError::EventNote { event, error }) => {
                &&& event < n
                &&& note_of(events[event as int].note) == Err::<u8, NoteError>(error)
                &&& 0 <= i < event ==> note_of(events[i].note) is Ok && status_of(
                    events[i].status,
                ) is Some
            },
            Err(PatternError::EventStatus { event }) => {
                &&& event < n
                &&& note_of(events[event as int].note) is Ok
                &&& status_of(events[event as int].status) is None
                &&& 0 <= i < event ==> note_of(events[i].note) is Ok && status_of(
                    events[i].status,
                ) is Some
            },
            Err(_) => false,
        },
    decreases n,
{
    if n > 0 {
        events_understood(events, (n - 1) as nat, i);
    }
}

/// A pattern table is read as it stands: tempo, length and flags as they are, the
/// base note by its name, the mode by its name, and the events one for one with
/// their note and status by name. It is refused for a base note that is none,
/// then for an unknown mode, then for the first event whose note or status is
/// not understood.
pub proof fn patterns_are_read_as_they_stand(raw: PatternRawModel, i: int)
    requires
        raw.events.len() <= usize::MAX,
    ensures
        match pattern_of(raw) {
            Ok(p) => {
                &&& p.bpm == raw.bpm && p.length_beats == raw.length_beats
                &&& p.looping == raw.looping && p.enabled == raw.enabled
                &&& raw.base_note is None ==> p.base_note is None
                &&& raw.base_note is Some ==> p.base_note is Some && note_of(raw.base_note->0)
                    == Ok::<u8, NoteError>(p.base_note->0)
                &&& transpose_mode(raw.transpose) == Some(p.in_key)
                &&& p.events.len() == raw.events.len()
                &&& 0 <= i < raw.events.len() ==> {
                    &&& p.events[i].0 == raw.events[i].frame
                    &&& status_of(raw.events[i].status) == Some(p.events[i].1)
                    &&& note_of(raw.events[i].note) == Ok::<u8, NoteError>(p.events[i].2)
                    &&& p.events[i].3 == raw.events[i].velocity
                }
            },
            Err(PatternError::BaseNote { error }) => raw.base_note is Some && note_of(
                raw.base_note->0,
            ) == Err::<u8, NoteError>(error),
            Err(PatternError::Transpose) => transpose_mode(raw.transpose) is None && (
            raw.base_note is Some ==> note_of(raw.base_note->0) is Ok),
            Err(PatternError::EventNote { event, error }) => event < raw.events.len() && note_of(
                raw.events[event as int].note,
            ) == Err::<u8, NoteError>(error) && transpose_mode(raw.transpose) is Some,
            Err(PatternError::EventStatus { event }) => event < raw.events.len() && status_of(
                raw.events[event as int].status,
            ) is None && transpose_mode(raw.transpose) is Some,
        },
{
    events_understood(raw.events, raw.events.len(), i);
}

// ---------------------------------------------------------------------------
// Presets
// ---------------------------------------------------------------------------

proof fn first_preset_is_found(presets: Seq<Preset>, text: Seq<char>, n: nat, i: int)
    requires
        n <= presets.len(),
    ensures
        0 <= i < n && presets[i].name@ == text && (forall|k: int|
            0 <= k < i ==> (#[trigger] presets[k]).name@ != text) ==> preset_named(presets, text, n)
            == Some(i as nat),
        (forall|k: int| 0 <= k < n ==> (#[trigger] presets[k]).name@ != text) ==> preset_named(
            presets,
            text,
            n,
        ) is None,
        0 <= i < n && presets[i].id@ == text && (forall|k: int|
            0 <= k < i ==> (#[trigger] presets[k]).id@ != text) ==> preset_with_id(presets, text, n)
            == Some(i as nat),
        (forall|k: int| 0 <= k < n ==> (#[trigger] presets[k]).id@ != text) ==> preset_with_id(
            presets,
            text,
            n,
        ) is None,
    decreases n,
{
    if n > 0 {
        first_preset_is_found(presets, text, (n - 1) as nat, i);
    }
}

/// A reference means the first preset of that name; if there is none, the first
/// with that id; and if there is none either, nothing.
pub proof fn presets_go_by_name_then_id(presets: Seq<Preset>, text: Seq<char>, i: int)
    ensures
        ({
            let n = presets.len();
            let unnamed = forall|k: int| 0 <= k < n ==> (#[trigger] presets[k]).name@ != text;
            &&& 0 <= i < n && presets[i].name@ == text && (forall|k: int|
                0 <= k < i ==> (#[trigger] presets[k]).name@ != text) ==> preset_meant(
                presets,
                text,
            ) == Some(i as nat)
            &&& unnamed && 0 <= i < n && presets[i].id@ == text && (forall|k: int|
                0 <= k < i ==> (#[trigger] presets[k]).id@ != text) ==> preset_meant(presets, text)
                == Some(i as nat)
            &&& unnamed && (forall|k: int| 0 <= k < n ==> (#[trigger] presets[k]).id@ != text)
                ==> preset_meant(presets, text) is None
        }),
{
    first_preset_is_found(presets, text, presets.len(), i);
}

// ---------------------------------------------------------------------------
// Slots
// ---------------------------------------------------------------------------

/// A slot of a session file has its range and its pattern understood.
pub open spec fn understood(s: InstrumentSlotRaw) -> bool {
    &&& s.range is Some ==> range_of((s.range->0)@) is Ok
    &&& s.pattern is Some ==> pattern_of((s.pattern->0)@) is Ok
}

/// A session file is refused for the first slot that is not understood: for its
/// range if that is not, else for its pattern, under the slot's own number and
/// with what is wrong with it. If every slot is understood, nothing is refused.
pub proof fn the_first_bad_slot_is_named(slots: Seq<InstrumentSlotRaw>, n: nat, slot: usize)
    requires
        n <= slots.len() <= usize::MAX,
    ensures
        (forall|k: int| 0 <= k < n ==> understood(#[trigger] slots[k])) ==> first_error(slots, n)
            is None,
        slot < n && !understood(slots[slot as int]) && (forall|k: int|
            0 <= k < slot ==> understood(#[trigger] slots[k])) ==> {
            let raw = slots[slot as int];
            let range = range_of((raw.range->0)@);
            let pattern = pattern_of((raw.pattern->0)@);
            if raw.range is Some && range is Err {
                first_error(slots, n) == Some(SessionError::Range { slot, error: range->Err_0 })
            } else {
                first_error(slots, n) == Some(
                    SessionError::Pattern { slot, error: pattern->Err_0 },
                )
            }
        },
    decreases n,
{
    if n > 0 {
        the_first_bad_slot_is_named(slots, (n - 1) as nat, slot);
    }
}

/// A slot is loaded as it stands: its range by its text, its transposition, its
/// effects and its plugin as they are; without a plugin it has no instrument. It
/// belongs to the group that it names if there is one of that number, and to
/// none if not.
pub proof fn slots_are_loaded_as_they_stand(
    raw: InstrumentSlotRaw,
    groups: nat,
    s: InstrumentSlotConfig,
)
    requires
        slot_loaded(raw, groups, s),
    ensures
        s.range is None <==> raw.range is None,
        raw.range is Some ==> range_of((raw.range->0)@) == Ok::<(u8, u8), RangeError>(s.range->0),
        s.transpose == raw.transpose,
        s.effects == raw.effects,
        s.instrument is None <==> raw.plugin is None,
        s.instrument is Some ==> {
            let p = s.instrument->0;
            &&& p.plugin == raw.plugin->0
            &&& p.preset == raw.preset
            &&& p.volume == raw.volume
            &&& p.pitch_bend_range == raw.pitch_bend_range
            &&& p.remap == raw.remap
            &&& p.params == raw.params
            &&& p.modulators == raw.modulators
        },
        s.pattern is None <==> raw.pattern is None,
        raw.pattern is Some ==> pattern_of((raw.pattern->0)@) == Ok::<PatternModel, PatternError>(
            (s.pattern->0)@,
        ),
        s.group is Some <==> raw.group is Some && (raw.group->0 as nat) < groups,
        s.group is Some ==> s.group == raw.group,
{
}

/// A session is loaded as it stands: its slots and groups one for one, in order.
/// The pan of a group is brought within -1 to 1, the rest is as it is.
pub proof fn sessions_are_loaded_as_they_stand(raw: SessionRaw, s: SessionConfig, i: int)
    requires
        session_loaded(raw, s),
    ensures
        s.instruments@.len() == raw.instruments@.len(),
        0 <= i < raw.instruments@.len() ==> slot_loaded(
            raw.instruments@[i],
            raw.groups@.len(),
            s.instruments@[i],
        ),
        s.groups@.len() == raw.groups@.len(),
        0 <= i < raw.groups@.len() ==> {
            let (from, to) = (raw.groups@[i], s.groups@[i]);
            &&& to.name == from.name
            &&& to.volume == from.volume
            &&& to.pan == from.pan.clamped()
            &&& to.effects == from.effects
            &&& to.modulators == from.modulators
        },
        s.piano == raw.piano,
{
    if 0 <= i < raw.groups@.len() {
        assert(group_loaded(raw.groups@[i], s.groups@[i]));
    }
}

/// A new session has one lane over the whole keyboard: the oscillator at full
/// volume, with a bend range of two semitones. There is nothing else in it.
pub proof fn new_sessions_hold_an_oscillator(s: SessionConfig)
    requires
        is_default_session(s),
    ensures
        s.groups@.len() == 0,
        s.piano is None,
        s.instruments@.len() == 1,
        ({
            let slot = s.instruments@[0];
            let p = slot.instrument->0;
            &&& slot.range is None && slot.group is None && slot.pattern is None
            &&& slot.transpose == 0 && slot.effects@.len() == 0
            &&& slot.instrument is Some
            &&& p.plugin@ == "builtin:osc"@
            &&& p.preset is None
            &&& p.volume.bits == 0x3ff0_0000_0000_0000
            &&& p.pitch_bend_range.bits == 0x4000_0000_0000_0000
            &&& p.remap@.len() == 0 && p.params@.len() == 0 && p.modulators@.len() == 0
        }),
{
}

// ---------------------------------------------------------------------------
// Messages
// ---------------------------------------------------------------------------

/// A text that quotes another.
pub open spec fn quotes(s: Seq<char>, text: Seq<char>) -> bool {
    holds(s, seq!['\''] + text + seq!['\''])
}

proof fn quoted(front: Seq<char>, text: Seq<char>, back: Seq<char>)
    requires
        front.len() > 0,
        front.last() == '\'',
        back.len() > 0,
        back[0] == '\'',
    ensures
        quotes(front + text + back, text),
{
    let s = front + text + back;
    let needle = seq!['\''] + text + seq!['\''];
    let at = front.len() - 1;
    assert(s.subrange(at, at + needle.len()) =~= needle);
    assert(part_at(s, needle, at));
}

/// What is said of a text that was not understood quotes it: of a note's octave or
/// place the name, of its letter that letter, of a mode and a status the word, of
/// a range the whole text.
pub proof fn messages_quote_the_text(
    text: Seq<char>,
    c: char,
    event: usize,
    low: u8,
    high: u8,
)
    ensures
        quotes(note_message(NoteError::Octave, text), text),
        quotes(note_message(NoteError::OutOfRange, text), text),
        quotes(note_message(NoteError::Letter(c), text), seq![c]),
        quotes(pattern_message(PatternError::Transpose, text), text),
        quotes(pattern_message(PatternError::EventStatus { event }, text), text),
        quotes(range_message(RangeError::Format, text), text),
        quotes(range_message(RangeError::NoBound, text), text),
        quotes(range_message(RangeError::Order { low, high }, text), text),
{
    reveal_strlit("invalid note letter '");
    reveal_strlit("'");
    reveal_strlit("invalid octave in note name '");
    reveal_strlit("note '");
    reveal_strlit("' is out of MIDI range (0-127)");
    reveal_strlit("invalid pattern transpose '");
    reveal_strlit("', expected 'chromatic' or 'in_key'");
    reveal_strlit("invalid pattern event status '");
    reveal_strlit("', expected 'on' or 'off'");
    reveal_strlit("invalid range format '");
    reveal_strlit(
        "', expected 'NOTE-NOTE' (e.g. 'C0-B3'); open-ended 'C4-' or '-C4' are also allowed",
    );
    reveal_strlit("invalid range '");
    reveal_strlit("': at least one bound is required");
    reveal_strlit("range '");
    reveal_strlit("' has low (");
    quoted("invalid octave in note name '"@, text, "'"@);
    quoted("note '"@, text, "' is out of MIDI range (0-127)"@);
    assert(("invalid note letter '"@).push(c) + "'"@ =~= "invalid note letter '"@ + seq![c] + "'"@);
    quoted("invalid note letter '"@, seq![c], "'"@);
    quoted("invalid pattern transpose '"@, text, "', expected 'chromatic' or 'in_key'"@);
    quoted("invalid pattern event status '"@, text, "', expected 'on' or 'off'"@);
    quoted(
        "invalid range format '"@,
        text,
        "', expected 'NOTE-NOTE' (e.g. 'C0-B3'); open-ended 'C4-' or '-C4' are also allowed"@,
    );
    quoted("invalid range '"@, text, "': at least one bound is required"@);
    let tail = "' has low ("@ + dec(low as nat) + ") > high ("@ + dec(high as nat) + ")"@;
    assert(range_message(RangeError::Order { low, high }, text) =~= "range '"@ + text + tail);
    assert(tail[0] == '\'');
    quoted("range '"@, text, tail);
}

} // verus!
