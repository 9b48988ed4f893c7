//! What a lane makes of the messages of a buffer.

use vstd::prelude::*;

use crate::event::MidiEvent;
use crate::graph::{group_heard, group_plays};
use crate::lane::{
    events_transposed, heard, lane_incoming, lane_outgoing, lane_sample_rate, slot_plugin,
    LaneModel,
};
use crate::remap::{event_remapped, events_remapped};

verus! {

/// A message about a note, on or off, on any channel.
pub open spec fn about_note(ev: MidiEvent) -> bool {
    ev.1[0] & 0xF0 == 0x80 || ev.1[0] & 0xF0 == 0x90
}

/// A note outside an inclusive range.
pub open spec fn outside(range: Option<(u8, u8)>, note: u8) -> bool {
    range matches Some((low, high)) && (note < low || note > high)
}

/// A lane hears all messages but the notes outside its range, in order and as
/// they are.
pub proof fn lanes_hear_their_range(
    range: Option<(u8, u8)>,
    midi: Seq<MidiEvent>,
    ev: MidiEvent,
)
    ensures
        heard(range, Seq::empty()) == Seq::<MidiEvent>::empty(),
        heard(range, midi.push(ev)) == (if about_note(ev) && outside(range, ev.1[1]) {
            heard(range, midi)
        } else {
            heard(range, midi).push(ev)
        }),
{
    reveal(Seq::filter);
    assert(midi.push(ev).drop_last() =~= midi);
}

/// A group's envelopes hear all messages but the notes that lie outside the range
/// of every member, in order and as they are.
pub proof fn groups_hear_their_members(
    lanes: Seq<LaneModel>,
    group: usize,
    midi: Seq<MidiEvent>,
    ev: MidiEvent,
)
    ensures
        group_heard(lanes, group, Seq::empty()) == Seq::<MidiEvent>::empty(),
        group_heard(lanes, group, midi.push(ev)) == (if about_note(ev) && (forall|i: int|
            0 <= i < lanes.len() && (#[trigger] lanes[i]).group == Some(group) ==> outside(
                lanes[i].range,
                ev.1[1],
            )) {
            group_heard(lanes, group, midi)
        } else {
            group_heard(lanes, group, midi).push(ev)
        }),
{
    reveal(Seq::filter);
    assert(midi.push(ev).drop_last() =~= midi);
    let silent = forall|i: int|
        0 <= i < lanes.len() && (#[trigger] lanes[i]).group == Some(group) ==> outside(
            lanes[i].range,
            ev.1[1],
        );
    if group_plays(lanes, group, ev.1[1]) {
        let i = choose|i: int|
            0 <= i < lanes.len() && (#[trigger] lanes[i]).group == Some(group)
                && crate::lane::in_range(lanes[i].range, ev.1[1]);
        assert(!outside(lanes[i].range, ev.1[1]));
        assert(!silent);
    } else {
        assert forall|i: int|
            0 <= i < lanes.len() && (#[trigger] lanes[i]).group == Some(group) implies outside(
            lanes[i].range,
            ev.1[1],
        ) by {}
        assert(silent);
    }
}

/// A transposition moves every note by its semitones and leaves out those that
/// would leave 0..=127; all else passes as it is, in order. One by no semitones
/// changes nothing.
pub proof fn transpositions_shift_notes(midi: Seq<MidiEvent>, ev: MidiEvent, semitones: i8)
    ensures
        events_transposed(midi, 0) == midi,
        events_transposed(Seq::empty(), semitones) == Seq::<MidiEvent>::empty(),
        semitones != 0 ==> events_transposed(midi.push(ev), semitones) == (if !about_note(ev) {
            events_transposed(midi, semitones).push(ev)
        } else if ev.1[1] + semitones < 0 || ev.1[1] + semitones > 127 {
            events_transposed(midi, semitones)
        } else {
            events_transposed(midi, semitones).push(
                (ev.0, [ev.1[0], (ev.1[1] + semitones) as u8, ev.1[2]]),
            )
        }),
{
    assert(midi.push(ev).drop_last() =~= midi);
}

/// What a lane plays from is in range before it is remapped: a note outside the
/// range never comes in, and one inside does, as what the remapper makes of it.
/// Messages come in one after another.
pub proof fn lanes_remap_what_they_hear(l: LaneModel, midi: Seq<MidiEvent>, ev: MidiEvent)
    ensures
        lane_incoming(l, Seq::empty()) == Seq::<MidiEvent>::empty(),
        lane_incoming(l, midi.push(ev)) == (if about_note(ev) && outside(l.range, ev.1[1]) {
            lane_incoming(l, midi)
        } else {
            match l.remapper {
                None => lane_incoming(l, midi).push(ev),
                Some(table) => lane_incoming(l, midi) + event_remapped(table, ev),
            }
        }),
{
    lanes_hear_their_range(l.range, midi, ev);
    if let Some(table) = l.remapper {
        let h = heard(l.range, midi);
        assert(h.push(ev).drop_last() =~= h);
        assert(events_remapped(table, Seq::empty()) =~= Seq::empty());
    }
}

/// The transposition comes last: what leaves a transposed lane is what would
/// leave it untransposed, moved by its semitones.
pub proof fn lanes_transpose_last(
    l: LaneModel,
    incoming: Seq<MidiEvent>,
    frames: int,
    degrees: &[u8],
)
    ensures
        lane_outgoing(l, incoming, frames, degrees) == events_transposed(
            lane_outgoing(LaneModel { transpose: 0, ..l }, incoming, frames, degrees),
            l.transpose,
        ),
{
    let plain = LaneModel { transpose: 0, ..l };
    assert(plain.pattern == l.pattern);
}

/// Slot 0 of a lane is its instrument, and the slots behind it are its effects in
/// order. A lane runs at the rate of its instrument, or at 48000.
pub proof fn slots_follow_the_chain(l: LaneModel, slot: usize)
    ensures
        slot_plugin(l, 0) == l.instrument,
        1 <= slot <= l.effects.len() ==> slot_plugin(l, slot) == Some(l.effects[slot - 1]),
        slot > l.effects.len() && slot > 0 ==> slot_plugin(l, slot) is None,
        l.instrument is None ==> lane_sample_rate(l).bits == 0x473b_8000,
        l.instrument matches Some(p) ==> lane_sample_rate(l) == p.sample_rate,
{
}

} // verus!
