//! What a remapping makes of detuned notes.

use vstd::prelude::*;

use crate::event::MidiEvent;
use crate::notes::note_of;
use crate::playback_laws::{lets_go, presses};
use crate::remap::{
    channel_of, channels_follow_detunes, entry_for, event_remapped, events_remapped, near_covers,
    near_equivalence, remapping, representatives, representatives_cover, standing_for,
    standing_is_first, table_of, table_valid, RemapEntry, RemapError, RequestModel,
};

verus! {

// ---------------------------------------------------------------------------
// The table
// ---------------------------------------------------------------------------

/// No later entry remaps the same note.
pub open spec fn last_of_its_note(entries: Seq<RequestModel>, i: int) -> bool {
    forall|j: int|
        i < j < entries.len() ==> note_of((#[trigger] entries[j]).source) != note_of(
            entries[i].source,
        )
}

proof fn table_keeps_entry(
    entries: Seq<RequestModel>,
    near: Seq<Seq<bool>>,
    reps: Seq<int>,
    n: nat,
    i: int,
)
    requires
        0 <= i < n <= entries.len(),
        table_of(entries, near, reps, n) is Ok,
        forall|j: int|
            i < j < n ==> note_of((#[trigger] entries[j]).source) != note_of(entries[i].source),
    ensures
        note_of(entries[i].source) is Ok,
        note_of(entries[i].target) is Ok,
        table_of(entries, near, reps, n)->Ok_0.contains_key(note_of(entries[i].source)->Ok_0),
        table_of(entries, near, reps, n)->Ok_0[note_of(entries[i].source)->Ok_0] == entry_for(
            note_of(entries[i].target)->Ok_0,
            channel_of(near, reps, i),
            entries[i].bend_value as int,
        ),
    decreases n,
{
    if i < n - 1 {
        table_keeps_entry(entries, near, reps, (n - 1) as nat, i);
        assert(note_of(entries[n - 1].source) != note_of(entries[i].source));
    }
}

/// The entry that a remapping has for the note of configuration entry `i`.
pub open spec fn remapped_as(
    entries: Seq<RequestModel>,
    near: Seq<Seq<bool>>,
    i: int,
) -> RemapEntry {
    remapping(entries, near)->Ok_0[note_of(entries[i].source)->Ok_0]
}

proof fn remapped_as_configured(entries: Seq<RequestModel>, near: Seq<Seq<bool>>, i: int)
    requires
        near_covers(near, entries.len()),
        remapping(entries, near) is Ok,
        0 <= i < entries.len(),
        last_of_its_note(entries, i),
    ensures
        ({
            let reps = representatives(entries, near, entries.len())->Ok_0;
            &&& representatives(entries, near, entries.len()) is Ok
            &&& note_of(entries[i].source) is Ok
            &&& note_of(entries[i].target) is Ok
            &&& remapping(entries, near)->Ok_0.contains_key(note_of(entries[i].source)->Ok_0)
            &&& 1 <= channel_of(near, reps, i) <= 15
            &&& remapped_as(entries, near, i) == entry_for(
                note_of(entries[i].target)->Ok_0,
                channel_of(near, reps, i),
                entries[i].bend_value as int,
            )
        }),
{
    representatives_cover(entries, near, entries.len());
    let reps = representatives(entries, near, entries.len())->Ok_0;
    table_keeps_entry(entries, near, reps, entries.len(), i);
    assert(standing_for(near, reps, i, reps.len()) < reps.len());
}

/// A remapped note sounds as its configured target with its configured bend: the
/// two data bytes are the bend's low and high seven bits. A bend outside the 14
/// bits of a pitch bend message becomes the nearest that fits. Of several
/// entries for a note the last one holds.
pub proof fn remapped_notes_get_their_bend(
    entries: Seq<RequestModel>,
    near: Seq<Seq<bool>>,
    i: int,
)
    requires
        near_covers(near, entries.len()),
        remapping(entries, near) is Ok,
        0 <= i < entries.len(),
        last_of_its_note(entries, i),
    ensures
        ({
            let e = remapped_as(entries, near, i);
            let sent = e.pitch_bend_lsb + 128 * e.pitch_bend_msb;
            let bend = entries[i].bend_value;
            &&& note_of(entries[i].source) is Ok
            &&& remapping(entries, near)->Ok_0.contains_key(note_of(entries[i].source)->Ok_0)
            &&& note_of(entries[i].target) is Ok
            &&& note_of(entries[i].target)->Ok_0 == e.target_note
            &&& e.pitch_bend_lsb <= 127
            &&& e.pitch_bend_msb <= 127
            &&& 0 <= bend <= 16383 ==> sent == bend
            &&& bend < 0 ==> sent == 0
            &&& bend > 16383 ==> sent == 16383
        }),
{
    remapped_as_configured(entries, near, i);
}

proof fn table_comes_from_entries(
    entries: Seq<RequestModel>,
    near: Seq<Seq<bool>>,
    reps: Seq<int>,
    n: nat,
    note: u8,
) -> (i: int)
    requires
        n <= entries.len(),
        table_of(entries, near, reps, n) is Ok,
        table_of(entries, near, reps, n)->Ok_0.contains_key(note),
    ensures
        0 <= i < n,
        note_of(entries[i].source) is Ok,
        note_of(entries[i].source)->Ok_0 == note,
        forall|j: int|
            i < j < n ==> note_of((#[trigger] entries[j]).source) != note_of(entries[i].source),
    decreases n,
{
    if note_of(entries[n - 1].source)->Ok_0 == note {
        n - 1
    } else {
        table_comes_from_entries(entries, near, reps, (n - 1) as nat, note)
    }
}

/// Only configured notes are remapped.
pub proof fn only_configured_notes_remap(
    entries: Seq<RequestModel>,
    near: Seq<Seq<bool>>,
    note: u8,
)
    requires
        near_covers(near, entries.len()),
        remapping(entries, near) is Ok,
    ensures
        remapping(entries, near)->Ok_0.contains_key(note) == exists|i: int|
            0 <= i < entries.len() && note_of((#[trigger] entries[i]).source) is Ok && note_of(
                entries[i].source,
            )->Ok_0 == note,
{
    let reps = representatives(entries, near, entries.len())->Ok_0;
    let n = entries.len();
    if remapping(entries, near)->Ok_0.contains_key(note) {
        let i = table_comes_from_entries(entries, near, reps, n, note);
        assert(note_of(entries[i].source)->Ok_0 == note);
    }
    if exists|i: int|
        0 <= i < entries.len() && note_of((#[trigger] entries[i]).source) is Ok && note_of(
            entries[i].source,
        )->Ok_0 == note {
        let i = choose|i: int|
            0 <= i < entries.len() && note_of((#[trigger] entries[i]).source) is Ok && note_of(
                entries[i].source,
            )->Ok_0 == note;
        table_has_note(entries, near, reps, n, i);
    }
}

proof fn table_has_note(
    entries: Seq<RequestModel>,
    near: Seq<Seq<bool>>,
    reps: Seq<int>,
    n: nat,
    i: int,
)
    requires
        0 <= i < n <= entries.len(),
        table_of(entries, near, reps, n) is Ok,
    ensures
        note_of(entries[i].source) is Ok,
        table_of(entries, near, reps, n)->Ok_0.contains_key(note_of(entries[i].source)->Ok_0),
    decreases n,
{
    if i < n - 1 {
        table_has_note(entries, near, reps, (n - 1) as nat, i);
    }
}

/// Two remapped notes sound on one channel exactly when their detune values
/// count as one. A note with the detune value of the first entry sounds on the
/// second channel, and a new detune value gets a higher channel than the ones
/// before it.
pub proof fn detunes_get_channels_in_order(
    entries: Seq<RequestModel>,
    near: Seq<Seq<bool>>,
    i: int,
    j: int,
)
    requires
        near_covers(near, entries.len()),
        near_equivalence(near, entries.len()),
        remapping(entries, near) is Ok,
        0 <= i < entries.len(),
        0 <= j < entries.len(),
        last_of_its_note(entries, i),
        last_of_its_note(entries, j),
    ensures
        ({
            let (a, b) = (remapped_as(entries, near, i), remapped_as(entries, near, j));
            &&& 1 <= a.channel <= 15
            &&& (a.channel == b.channel) == near[i][j]
            &&& near[0][i] ==> a.channel == 1
            &&& i < j && (forall|k: int| 0 <= k < j ==> !#[trigger] near[k][j])
                ==> a.channel < b.channel
        }),
{
    remapped_as_configured(entries, near, i);
    remapped_as_configured(entries, near, j);
    channels_follow_detunes(entries, near, i, j);
    let reps = representatives(entries, near, entries.len())->Ok_0;
    representatives_cover(entries, near, entries.len());
    standing_is_first(near, reps, i, reps.len());
    standing_is_first(near, reps, j, reps.len());
    representatives_rise(entries, near, entries.len());
    let si = standing_for(near, reps, i, reps.len()) as int;
    let sj = standing_for(near, reps, j, reps.len()) as int;
    assert(si < reps.len() && sj < reps.len());
    if near[0][i] {
        if si > 0 {
            assert(!near[reps[0]][i]);
        }
    }
    if i < j && (forall|k: int| 0 <= k < j ==> !#[trigger] near[k][j]) {
        assert(near[reps[sj]][j]);
        assert(reps[sj] >= j);
        standing_precedes(entries, near, entries.len(), i);
        assert(reps[si] <= i);
        if sj <= si {
            assert(reps[sj] <= reps[si]);
        }
    }
}

/// Representatives are listed in order of appearance, from the first entry on.
proof fn representatives_rise(entries: Seq<RequestModel>, near: Seq<Seq<bool>>, n: nat)
    requires
        near_covers(near, entries.len()),
        n <= entries.len(),
        representatives(entries, near, n) is Ok,
    ensures
        ({
            let reps = representatives(entries, near, n)->Ok_0;
            &&& forall|a: int| 0 <= a < reps.len() ==> 0 <= #[trigger] reps[a] < n
            &&& forall|a: int, b: int|
                0 <= a < b < reps.len() ==> #[trigger] reps[a] < #[trigger] reps[b]
            &&& n > 0 ==> reps.len() > 0 && reps[0] == 0
        }),
    decreases n,
{
    if n > 0 {
        representatives_rise(entries, near, (n - 1) as nat);
    }
}

/// The one that stands for an entry appears no later than the entry.
proof fn standing_precedes(entries: Seq<RequestModel>, near: Seq<Seq<bool>>, n: nat, i: int)
    requires
        near_covers(near, entries.len()),
        0 <= i < n <= entries.len(),
        representatives(entries, near, n) is Ok,
    ensures
        ({
            let reps = representatives(entries, near, n)->Ok_0;
            let s = standing_for(near, reps, i, reps.len()) as int;
            s < reps.len() && reps[s] <= i
        }),
    decreases n,
{
    representatives_cover(entries, near, n);
    representatives_rise(entries, near, n);
    let reps = representatives(entries, near, n)->Ok_0;
    standing_is_first(near, reps, i, reps.len());
    let s = standing_for(near, reps, i, reps.len()) as int;
    assert(s < reps.len());
    if i < n - 1 {
        standing_precedes(entries, near, (n - 1) as nat, i);
        let before = representatives(entries, near, (n - 1) as nat)->Ok_0;
        standing_is_first(near, before, i, before.len());
        let t = standing_for(near, before, i, before.len()) as int;
        assert(near[before[t]][i]);
        assert(reps[t] == before[t]);
        assert(s <= t);
        if s < t {
            assert(reps[s] < reps[t]);
        }
    }
}

// ---------------------------------------------------------------------------
// Refusals
// ---------------------------------------------------------------------------

/// Sixteen entries no two of which count as one value.
pub open spec fn all_distinct(near: Seq<Seq<bool>>, chosen: Seq<int>, n: nat) -> bool {
    &&& chosen.len() == 16
    &&& forall|a: int| 0 <= a < 16 ==> 0 <= #[trigger] chosen[a] < n
    &&& forall|a: int, b: int|
        0 <= a < b < 16 ==> !near[#[trigger] chosen[a]][#[trigger] chosen[b]]
}

proof fn representatives_refuse(entries: Seq<RequestModel>, near: Seq<Seq<bool>>, n: nat)
    requires
        near_covers(near, entries.len()),
        n <= entries.len() <= usize::MAX,
    ensures
        match representatives(entries, near, n) {
            Ok(_) => forall|i: int| 0 <= i < n ==> !(#[trigger] entries[i]).exceeds,
            Err(RemapError::DetuneExceedsRange { entry }) => {
                &&& entry < n
                &&& entries[entry as int].exceeds
                &&& forall|i: int| 0 <= i < entry ==> !(#[trigger] entries[i]).exceeds
            },
            Err(RemapError::TooManyDetunes) => exists|chosen: Seq<int>|
                #[trigger] all_distinct(near, chosen, n),
            Err(_) => false,
        },
    decreases n,
{
    if n > 0 {
        representatives_refuse(entries, near, (n - 1) as nat);
        match representatives(entries, near, (n - 1) as nat) {
            Ok(reps) => {
                if !entries[n - 1].exceeds && standing_for(near, reps, n - 1, reps.len())
                    >= reps.len() && reps.len() >= 15 {
                    representatives_cover(entries, near, (n - 1) as nat);
                    standing_is_first(near, reps, n - 1, reps.len());
                    let chosen = reps.push(n - 1);
                    assert(all_distinct(near, chosen, n));
                }
            },
            Err(RemapError::TooManyDetunes) => {
                let chosen = choose|chosen: Seq<int>|
                    #[trigger] all_distinct(near, chosen, (n - 1) as nat);
                assert(all_distinct(near, chosen, n));
            },
            Err(_) => {},
        }
    }
}

/// Every source and target among the first `n` entries is a note.
pub open spec fn all_notes(entries: Seq<RequestModel>, n: int) -> bool {
    forall|i: int|
        0 <= i < n ==> note_of((#[trigger] entries[i]).source) is Ok && note_of(
            entries[i].target,
        ) is Ok
}

proof fn table_refuses(
    entries: Seq<RequestModel>,
    near: Seq<Seq<bool>>,
    reps: Seq<int>,
    n: nat,
)
    requires
        n <= entries.len() <= usize::MAX,
    ensures
        match table_of(entries, near, reps, n) {
            Ok(_) => all_notes(entries, n as int),
            Err(RemapError::Source { entry, error }) => {
                &&& entry < n
                &&& note_of(entries[entry as int].source) is Err
                &&& note_of(entries[entry as int].source)->Err_0 == error
                &&& all_notes(entries, entry as int)
            },
            Err(RemapError::Target { entry, error }) => {
                &&& entry < n
                &&& note_of(entries[entry as int].source) is Ok
                &&& note_of(entries[entry as int].target) is Err
                &&& note_of(entries[entry as int].target)->Err_0 == error
                &&& all_notes(entries, entry as int)
            },
            Err(_) => false,
        },
    decreases n,
{
    if n > 0 {
        table_refuses(entries, near, reps, (n - 1) as nat);
    }
}

/// A remapping is refused for the first detune beyond the range, for more than
/// fifteen detune values, or for the first name that is no note, in this order;
/// otherwise it is built.
pub proof fn remappings_are_refused_for_a_cause(
    entries: Seq<RequestModel>,
    near: Seq<Seq<bool>>,
)
    requires
        near_covers(near, entries.len()),
        near_equivalence(near, entries.len()),
        entries.len() <= usize::MAX,
    ensures
        ({
            let n = entries.len();
            let too_many = exists|chosen: Seq<int>| #[trigger] all_distinct(near, chosen, n);
            let none_exceeds = forall|i: int| 0 <= i < n ==> !(#[trigger] entries[i]).exceeds;
            match remapping(entries, near) {
                Ok(_) => none_exceeds && !too_many && all_notes(entries, n as int),
                Err(RemapError::DetuneExceedsRange { entry }) => {
                    &&& entry < n
                    &&& entries[entry as int].exceeds
                    &&& forall|i: int| 0 <= i < entry ==> !(#[trigger] entries[i]).exceeds
                },
                Err(RemapError::TooManyDetunes) => too_many,
                Err(RemapError::Source { entry, error }) => {
                    &&& none_exceeds && !too_many
                    &&& entry < n
                    &&& note_of(entries[entry as int].source) is Err
                    &&& note_of(entries[entry as int].source)->Err_0 == error
                    &&& all_notes(entries, entry as int)
                },
                Err(RemapError::Target { entry, error }) => {
                    &&& none_exceeds && !too_many
                    &&& entry < n
                    &&& note_of(entries[entry as int].source) is Ok
                    &&& note_of(entries[entry as int].target) is Err
                    &&& note_of(entries[entry as int].target)->Err_0 == error
                    &&& all_notes(entries, entry as int)
                },
            }
        }),
{
    let n = entries.len();
    representatives_refuse(entries, near, n);
    if let Ok(reps) = representatives(entries, near, n) {
        table_refuses(entries, near, reps, n);
        if exists|chosen: Seq<int>| #[trigger] all_distinct(near, chosen, n) {
            let chosen = choose|chosen: Seq<int>| #[trigger] all_distinct(near, chosen, n);
            representatives_cover(entries, near, n);
            let seats = Seq::new(
                16,
                |a: int| standing_for(near, reps, chosen[a], reps.len()) as int,
            );
            assert forall|a: int, b: int|
                0 <= a < seats.len() && 0 <= b < seats.len() && a != b implies seats[a]
                != seats[b] by {
                let (x, y) = if a < b {
                    (chosen[a], chosen[b])
                } else {
                    (chosen[b], chosen[a])
                };
                assert(!near[x][y]);
                channels_follow_detunes(entries, near, x, y);
            }
            assert(seats.no_duplicates());
            seats.unique_seq_to_set();
            let room = vstd::set_lib::set_int_range(0, 15);
            vstd::set_lib::lemma_int_range(0, 15);
            assert forall|s: int| seats.to_set().contains(s) implies room.contains(s) by {
                let a = choose|a: int| 0 <= a < seats.len() && seats[a] == s;
                assert(0 <= chosen[a] < n);
            }
            vstd::set_lib::lemma_len_subset(seats.to_set(), room);
            assert(false);
        }
    }
}

// ---------------------------------------------------------------------------
// Messages
// ---------------------------------------------------------------------------

/// A pressed remapped note becomes its target on its channel with the same
/// velocity, and its bend on that channel follows at the same frame; a released
/// one becomes its target on its channel with the same kind of message. All else
/// passes as it is, one message for one.
pub proof fn remapped_messages_keep_their_time(table: Map<u8, RemapEntry>, ev: MidiEvent)
    requires
        table_valid(table),
    ensures
        ({
            let out = event_remapped(table, ev);
            let e = table[ev.1[1]];
            if table.contains_key(ev.1[1]) && (presses(ev) || lets_go(ev)) {
                &&& out.len() == (if presses(ev) {
                    2int
                } else {
                    1
                })
                &&& out[0].0 == ev.0
                &&& out[0].1[0] & 0xF0 == ev.1[0] & 0xF0
                &&& out[0].1[0] & 0x0F == e.channel
                &&& out[0].1[1] == e.target_note
                &&& out[0].1[2] == ev.1[2]
                &&& presses(ev) ==> {
                    &&& out[1].0 == ev.0
                    &&& out[1].1[0] & 0xF0 == 0xE0
                    &&& out[1].1[0] & 0x0F == e.channel
                    &&& out[1].1[1] == e.pitch_bend_lsb
                    &&& out[1].1[2] == e.pitch_bend_msb
                }
            } else {
                out == seq![ev]
            }
        }),
{
    if table.contains_key(ev.1[1]) && (presses(ev) || lets_go(ev)) {
        let c = table[ev.1[1]].channel;
        let sb = ev.1[0];
        assert(c <= 15 ==> ((sb & 0xF0) | c) & 0x0F == c && ((sb & 0xF0) | c) & 0xF0 == sb & 0xF0)
            by (bit_vector);
        assert(c <= 15 ==> (0xE0u8 | c) & 0x0F == c && (0xE0u8 | c) & 0xF0 == 0xE0) by (bit_vector);
    }
}

/// A buffer is remapped message by message, in order.
pub proof fn buffers_are_remapped_in_order(
    table: Map<u8, RemapEntry>,
    midi: Seq<MidiEvent>,
    ev: MidiEvent,
)
    ensures
        events_remapped(table, Seq::empty()) == Seq::<MidiEvent>::empty(),
        events_remapped(table, midi.push(ev)) == events_remapped(table, midi) + event_remapped(
            table,
            ev,
        ),
{
    assert(midi.push(ev).drop_last() =~= midi);
}

} // verus!
