//! Remapping of single notes to other notes on channels of their own.
//!
//! Normal notes pass through. A remapped note is rewritten to a target note on
//! one of the channels 2-16, followed by a pitch bend that tunes the channel.

use std::collections::HashMap;

use vstd::prelude::*;

use crate::event::{classify, note_edge, status_type, MidiEvent, NoteEdge};
use crate::notes::{note_message, note_of, parse_note_name, NoteError};

verus! {

/// How many detune values can be told apart: one channel each.
pub const MAX_DETUNES: usize = 15;

/// Pre-computed remapping of one note.
#[derive(Clone, Copy, Debug, PartialEq, Eq, Structural)]
pub struct RemapEntry {
    pub target_note: u8,
    /// Channel nibble, 1..=15.
    pub channel: u8,
    pub pitch_bend_lsb: u8,
    pub pitch_bend_msb: u8,
}

/// One configured remapping, with what its detune value amounts to.
#[derive(Debug)]
pub struct RemapRequest {
    /// Name of the note that is played.
    pub source: String,
    /// Name of the note that sounds.
    pub target: String,
    /// Whether the detune is larger than the pitch bend range.
    pub exceeds: bool,
    /// The pitch bend for the detune, where 8192 is the centre.
    pub bend_value: i32,
}

/// What a request holds.
pub struct RequestModel {
    pub source: Seq<char>,
    pub target: Seq<char>,
    pub exceeds: bool,
    pub bend_value: i32,
}

impl View for RemapRequest {
    type V = RequestModel;

    open spec fn view(&self) -> RequestModel {
        RequestModel {
            source: self.source@,
            target: self.target@,
            exceeds: self.exceeds,
            bend_value: self.bend_value,
        }
    }
}

/// A list of requests as a sequence of models.
pub open spec fn requests(entries: Seq<RemapRequest>) -> Seq<RequestModel> {
    Seq::new(entries.len(), |i: int| entries[i]@)
}

/// Why a remapping cannot be built.
#[derive(Clone, Copy, Debug, PartialEq, Eq, Structural)]
pub enum RemapError {
    /// The detune of this entry is larger than the pitch bend range.
    DetuneExceedsRange { entry: usize },
    /// There are more distinct detune values than channels.
    TooManyDetunes,
    /// The source of this entry is not a note.
    Source { entry: usize, error: NoteError },
    /// The target of this entry is not a note.
    Target { entry: usize, error: NoteError },
}

/// Remaps single notes to other notes on separate channels.
#[derive(Debug)]
pub struct NoteRemapper {
    pub table: HashMap<u8, RemapEntry>,
}

impl View for NoteRemapper {
    type V = Map<u8, RemapEntry>;

    open spec fn view(&self) -> Map<u8, RemapEntry> {
        self.table@
    }
}

// ---------------------------------------------------------------------------
// Building the table
// ---------------------------------------------------------------------------

/// `near[i][j]` says whether the detune values of entries `i` and `j` count as
/// one.
pub open spec fn nearness(near: Seq<Vec<bool>>) -> Seq<Seq<bool>> {
    Seq::new(near.len(), |i: int| near[i]@)
}

/// The relation covers `n` entries, and every value counts as itself.
pub open spec fn near_covers(near: Seq<Seq<bool>>, n: nat) -> bool {
    &&& near.len() == n
    &&& forall|i: int| 0 <= i < n ==> (#[trigger] near[i]).len() == n
    &&& forall|i: int| 0 <= i < n ==> #[trigger] near[i][i]
}

/// The position among the first `k` representatives of the first one that
/// stands for entry `i`, or `k`.
pub open spec fn standing_for(near: Seq<Seq<bool>>, reps: Seq<int>, i: int, k: nat) -> nat
    decreases k,
{
    if k == 0 {
        0
    } else {
        let earlier = standing_for(near, reps, i, (k - 1) as nat);
        if earlier < k - 1 {
            earlier
        } else if near[reps[k - 1]][i] {
            (k - 1) as nat
        } else {
            k
        }
    }
}

/// The entries that stand for distinct detune values, in order of appearance
/// among the first `n`; one channel is given to each.
pub open spec fn representatives(
    entries: Seq<RequestModel>,
    near: Seq<Seq<bool>>,
    n: nat,
) -> Result<Seq<int>, RemapError>
    decreases n,
{
    if n == 0 {
        Ok(Seq::empty())
    } else {
        match representatives(entries, near, (n - 1) as nat) {
            Err(e) => Err(e),
            Ok(reps) => if entries[n - 1].exceeds {
                Err(RemapError::DetuneExceedsRange { entry: (n - 1) as usize })
            } else if standing_for(near, reps, n - 1, reps.len()) < reps.len() {
                Ok(reps)
            } else if reps.len() >= MAX_DETUNES {
                Err(RemapError::TooManyDetunes)
            } else {
                Ok(reps.push(n - 1))
            },
        }
    }
}

/// The channel of entry `i`.
pub open spec fn channel_of(near: Seq<Seq<bool>>, reps: Seq<int>, i: int) -> int {
    standing_for(near, reps, i, reps.len()) as int + 1
}

/// A bend clamped to the 14 bits of a pitch bend message.
pub open spec fn bend_clamped(bend: int) -> int {
    if bend < 0 {
        0
    } else if bend > 16383 {
        16383
    } else {
        bend
    }
}

/// The table entry for a target note, channel and bend.
pub open spec fn entry_for(target_note: u8, channel: int, bend: int) -> RemapEntry {
    RemapEntry {
        target_note,
        channel: channel as u8,
        pitch_bend_lsb: (bend_clamped(bend) % 128) as u8,
        pitch_bend_msb: (bend_clamped(bend) / 128) as u8,
    }
}

/// The table of the first `n` entries.
pub open spec fn table_of(
    entries: Seq<RequestModel>,
    near: Seq<Seq<bool>>,
    reps: Seq<int>,
    n: nat,
) -> Result<Map<u8, RemapEntry>, RemapError>
    decreases n,
{
    if n == 0 {
        Ok(Map::empty())
    } else {
        let i = n - 1;
        match table_of(entries, near, reps, (n - 1) as nat) {
            Err(e) => Err(e),
            Ok(table) => match note_of(entries[i].source) {
                Err(error) => Err(RemapError::Source { entry: i as usize, error }),
                Ok(source) => match note_of(entries[i].target) {
                    Err(error) => Err(RemapError::Target { entry: i as usize, error }),
                    Ok(target) => Ok(
                        table.insert(
                            source,
                            entry_for(
                                target,
                                channel_of(near, reps, i),
                                entries[i].bend_value as int,
                            ),
                        ),
                    ),
                },
            },
        }
    }
}

/// The remapping that a configuration gives.
pub open spec fn remapping(
    entries: Seq<RequestModel>,
    near: Seq<Seq<bool>>,
) -> Result<Map<u8, RemapEntry>, RemapError> {
    match representatives(entries, near, entries.len()) {
        Err(e) => Err(e),
        Ok(reps) => table_of(entries, near, reps, entries.len()),
    }
}

fn find_standing(near: &Vec<Vec<bool>>, reps: &Vec<usize>, i: usize) -> (k: usize)
    requires
        i < near.len(),
        near_covers(nearness(near@), near.len() as nat),
        forall|j: int| 0 <= j < reps.len() ==> reps@[j] < near.len(),
    ensures
        k == standing_for(
            nearness(near@),
            reps@.map_values(|r: usize| r as int),
            i as int,
            reps.len() as nat,
        ),
        k <= reps.len(),
{
    let ghost n = nearness(near@);
    let ghost rs = reps@.map_values(|r: usize| r as int);
    let mut found: usize = 0;
    let mut k: usize = 0;
    while k < reps.len()
        invariant
            n == nearness(near@),
            rs == reps@.map_values(|r: usize| r as int),
            i < near.len(),
            near_covers(n, near.len() as nat),
            forall|j: int| 0 <= j < reps.len() ==> reps@[j] < near.len(),
            k <= reps.len(),
            found <= k,
            found == standing_for(n, rs, i as int, k as nat),
        decreases reps.len() - k,
    {
        let r: usize = reps[k];
        assert(n[r as int].len() == near.len());
        if found == k && !near[r][i] {
            found = k + 1;
        }
        k += 1;
    }
    found
}

/// The model of a built remapper.
pub open spec fn built(r: Result<NoteRemapper, RemapError>) -> Result<
    Map<u8, RemapEntry>,
    RemapError,
> {
    match r {
        Ok(m) => Ok(m@),
        Err(e) => Err(e),
    }
}

impl NoteRemapper {
    /// Build a remapper from the configured entries.
    ///
    /// Entries are grouped by detune value (`near` says which values count as
    /// one) and each group gets one of the channels 2-16.
    pub fn from_config(entries: &Vec<RemapRequest>, near: &Vec<Vec<bool>>) -> (r: Result<
        Self,
        RemapError,
    >)
        requires
            near_covers(nearness(near@), entries.len() as nat),
        ensures
            built(r) == remapping(requests(entries@), nearness(near@)),
    {
        broadcast use vstd::std_specs::hash::group_hash_axioms;

        let ghost es = requests(entries@);
        let ghost n = nearness(near@);
        let mut reps: Vec<usize> = Vec::new();
        let mut i: usize = 0;
        assert(reps@.map_values(|r: usize| r as int) =~= Seq::empty());
        while i < entries.len()
            invariant
                es == requests(entries@),
                n == nearness(near@),
                near_covers(n, entries.len() as nat),
                i <= entries.len(),
                reps.len() <= MAX_DETUNES,
                forall|j: int| 0 <= j < reps.len() ==> reps@[j] < i,
                representatives(es, n, i as nat) == Ok::<Seq<int>, RemapError>(
                    reps@.map_values(|r: usize| r as int),
                ),
            decreases entries.len() - i,
        {
            assert(es[i as int] == entries@[i as int]@);
            if entries[i].exceeds {
                proof {
                    representatives_stop(es, n, (i + 1) as nat, es.len());
                }
                return Err(RemapError::DetuneExceedsRange { entry: i });
            }
            let k: usize = find_standing(near, &reps, i);
            if k == reps.len() {
                if reps.len() >= MAX_DETUNES {
                    proof {
                        representatives_stop(es, n, (i + 1) as nat, es.len());
                    }
                    return Err(RemapError::TooManyDetunes);
                }
                assert(reps@.push(i).map_values(|r: usize| r as int) =~= reps@.map_values(
                    |r: usize| r as int,
                ).push(i as int));
                reps.push(i);
            }
            i += 1;
        }
        let ghost rs = reps@.map_values(|r: usize| r as int);
        let mut table: HashMap<u8, RemapEntry> = HashMap::new();
        let mut j: usize = 0;
        while j < entries.len()
            invariant
                es == requests(entries@),
                n == nearness(near@),
                near_covers(n, entries.len() as nat),
                rs == reps@.map_values(|r: usize| r as int),
                reps.len() <= MAX_DETUNES,
                forall|k: int| 0 <= k < reps.len() ==> reps@[k] < entries.len(),
                representatives(es, n, es.len()) == Ok::<Seq<int>, RemapError>(rs),
                j <= entries.len(),
                table_of(es, n, rs, j as nat) == Ok::<Map<u8, RemapEntry>, RemapError>(table@),
            decreases entries.len() - j,
        {
            broadcast use vstd::std_specs::hash::group_hash_axioms;

            assert(es[j as int] == entries@[j as int]@);
            let source: u8 = match parse_note_name(entries[j].source.as_str()) {
                Ok(v) => v,
                Err(error) => {
                    proof {
                        table_stops(es, n, rs, (j + 1) as nat, es.len());
                    }
                    return Err(RemapError::Source { entry: j, error });
                },
            };
            let target_note: u8 = match parse_note_name(entries[j].target.as_str()) {
                Ok(v) => v,
                Err(error) => {
                    proof {
                        table_stops(es, n, rs, (j + 1) as nat, es.len());
                    }
                    return Err(RemapError::Target { entry: j, error });
                },
            };
            let k: usize = find_standing(near, &reps, j);
            let bend: i32 = entries[j].bend_value;
            let clamped: u16 = if bend < 0 {
                0
            } else if bend > 16383 {
                16383
            } else {
                bend as u16
            };
            table.insert(
                source,
                RemapEntry {
                    target_note,
                    channel: k as u8 + 1,
                    pitch_bend_lsb: (clamped % 128) as u8,
                    pitch_bend_msb: (clamped / 128) as u8,
                },
            );
            j += 1;
        }
        Ok(NoteRemapper { table })
    }
}

/// An error among the first entries is the error of all.
proof fn representatives_stop(
    entries: Seq<RequestModel>,
    near: Seq<Seq<bool>>,
    n: nat,
    all: nat,
)
    requires
        n <= all,
        representatives(entries, near, n) is Err,
    ensures
        representatives(entries, near, all) == representatives(entries, near, n),
    decreases all - n,
{
    if n < all {
        representatives_stop(entries, near, n + 1, all);
    }
}

/// An error among the first entries is the error of all.
proof fn table_stops(
    entries: Seq<RequestModel>,
    near: Seq<Seq<bool>>,
    reps: Seq<int>,
    n: nat,
    all: nat,
)
    requires
        n <= all,
        table_of(entries, near, reps, n) is Err,
    ensures
        table_of(entries, near, reps, all) == table_of(entries, near, reps, n),
    decreases all - n,
{
    if n < all {
        table_stops(entries, near, reps, n + 1, all);
    }
}

// ---------------------------------------------------------------------------
// Remapping events
// ---------------------------------------------------------------------------

/// What one message becomes. A remapped note-on is followed by its pitch bend.
pub open spec fn event_remapped(table: Map<u8, RemapEntry>, ev: MidiEvent) -> Seq<MidiEvent> {
    let note = ev.1[1];
    if note_edge(ev) is Neither || !table.contains_key(note) {
        seq![ev]
    } else {
        let e = table[note];
        let rewritten = (ev.0, [status_type(ev) | e.channel, e.target_note, ev.1[2]]);
        if note_edge(ev) is On {
            seq![
                rewritten,
                (ev.0, [0xE0u8 | e.channel, e.pitch_bend_lsb, e.pitch_bend_msb]),
            ]
        } else {
            seq![rewritten]
        }
    }
}

/// What a buffer's messages become.
pub open spec fn events_remapped(
    table: Map<u8, RemapEntry>,
    midi: Seq<MidiEvent>,
) -> Seq<MidiEvent>
    decreases midi.len(),
{
    if midi.len() == 0 {
        Seq::empty()
    } else {
        events_remapped(table, midi.drop_last()) + event_remapped(table, midi.last())
    }
}

impl NoteRemapper {
    /// Remap a buffer's messages into `output`, which is overwritten. Messages
    /// other than remapped notes pass unchanged.
    pub fn remap_events(&self, input: &[MidiEvent], output: &mut Vec<MidiEvent>)
        ensures
            final(output)@ == events_remapped(self@, input@),
    {
        broadcast use vstd::std_specs::hash::group_hash_axioms;

        output.clear();
        let mut i: usize = 0;
        while i < input.len()
            invariant
                i <= input.len(),
                output@ == events_remapped(self@, input@.take(i as int)),
            decreases input.len() - i,
        {
            broadcast use vstd::std_specs::hash::group_hash_axioms;

            let ghost done = output@;
            assert(input@.take(i + 1).drop_last() =~= input@.take(i as int));
            let ev: MidiEvent = input[i];
            match classify(&ev) {
                NoteEdge::Neither => {
                    output.push(ev);
                },
                NoteEdge::On => match self.table.get(&ev.1[1]) {
                    Some(entry) => {
                        output.push((ev.0, [0x90 | entry.channel, entry.target_note, ev.1[2]]));
                        output.push(
                            (
                                ev.0,
                                [
                                    0xE0 | entry.channel,
                                    entry.pitch_bend_lsb,
                                    entry.pitch_bend_msb,
                                ],
                            ),
                        );
                    },
                    None => {
                        output.push(ev);
                    },
                },
                NoteEdge::Off => match self.table.get(&ev.1[1]) {
                    Some(entry) => {
                        output.push(
                            (
                                ev.0,
                                [(ev.1[0] & 0xF0) | entry.channel, entry.target_note, ev.1[2]],
                            ),
                        );
                    },
                    None => {
                        output.push(ev);
                    },
                },
            }
            assert(output@ =~= done + event_remapped(self@, ev));
            i += 1;
        }
        assert(input@.take(input@.len() as int) =~= input@);
    }
}

// ---------------------------------------------------------------------------
// Messages
// ---------------------------------------------------------------------------

/// What is said of a remapping that cannot be built.
pub open spec fn remap_message(
    e: RemapError,
    note: Seq<char>,
    detune: Seq<char>,
    range: Seq<char>,
) -> Seq<char> {
    match e {
        RemapError::DetuneExceedsRange { .. } => "detune "@ + detune
            + " exceeds pitch_bend_range \u{b1}"@ + range,
        RemapError::TooManyDetunes => {
            "too many distinct detune values (max 15, MIDI channels 2-16)"@
        },
        RemapError::Source { error, .. } => note_message(error, note),
        RemapError::Target { error, .. } => note_message(error, note),
    }
}

impl RemapError {
    /// The message for the user, with the texts of the note name, the detune
    /// value and the pitch bend range in question.
    pub fn message(&self, note: &str, detune: &str, range: &str) -> (text: String)
        ensures
            text@ == remap_message(*self, note@, detune@, range@),
    {
        match *self {
            RemapError::DetuneExceedsRange { .. } => "detune ".to_owned().concat(detune).concat(
                " exceeds pitch_bend_range \u{b1}",
            ).concat(range),
            RemapError::TooManyDetunes => {
                "too many distinct detune values (max 15, MIDI channels 2-16)".to_owned()
            },
            RemapError::Source { error, .. } => error.message(note),
            RemapError::Target { error, .. } => error.message(note),
        }
    }
}

// ---------------------------------------------------------------------------
// Laws
// ---------------------------------------------------------------------------

/// Every entry names one of the channels 2-16 and holds MIDI data bytes.
pub open spec fn table_valid(table: Map<u8, RemapEntry>) -> bool {
    forall|note: u8| #[trigger]
        table.contains_key(note) ==> {
            let e = table[note];
            1 <= e.channel <= 15 && e.target_note <= 127 && e.pitch_bend_lsb <= 127
                && e.pitch_bend_msb <= 127
        }
}

/// The one that stands for an entry is the first to count as its value.
pub proof fn standing_is_first(near: Seq<Seq<bool>>, reps: Seq<int>, i: int, k: nat)
    requires
        k <= reps.len(),
    ensures
        standing_for(near, reps, i, k) <= k,
        standing_for(near, reps, i, k) < k ==> near[reps[standing_for(near, reps, i, k) as int]][i],
        forall|j: int| 0 <= j < standing_for(near, reps, i, k) ==> !near[reps[j]][i],
    decreases k,
{
    if k > 0 {
        standing_is_first(near, reps, i, (k - 1) as nat);
    }
}

/// There are at most 15 representatives among the entries so far, no two of
/// them count as one value, and each of those entries has one.
pub proof fn representatives_cover(entries: Seq<RequestModel>, near: Seq<Seq<bool>>, n: nat)
    requires
        near_covers(near, entries.len()),
        n <= entries.len(),
        representatives(entries, near, n) is Ok,
    ensures
        ({
            let reps = representatives(entries, near, n)->Ok_0;
            &&& reps.len() <= MAX_DETUNES
            &&& forall|j: int| 0 <= j < reps.len() ==> 0 <= #[trigger] reps[j] < n
            &&& forall|a: int, b: int|
                0 <= a < b < reps.len() ==> !near[#[trigger] reps[a]][#[trigger] reps[b]]
            &&& forall|i: int|
                0 <= i < n ==> #[trigger] standing_for(near, reps, i, reps.len()) < reps.len()
        }),
    decreases n,
{
    if n > 0 {
        representatives_cover(entries, near, (n - 1) as nat);
        let before = representatives(entries, near, (n - 1) as nat)->Ok_0;
        let reps = representatives(entries, near, n)->Ok_0;
        standing_is_first(near, before, n - 1, before.len());
        if reps != before {
            assert forall|i: int| 0 <= i < n implies #[trigger] standing_for(
                near,
                reps,
                i,
                reps.len(),
            ) < reps.len() by {
                earlier_standing_stays(near, before, n - 1, i, before.len());
                if i == n - 1 {
                    assert(near[n - 1][n - 1]);
                } else {
                    assert(standing_for(near, before, i, before.len()) < before.len());
                }
            }
        }
    }
}

/// A later representative does not change who stands for an entry.
proof fn earlier_standing_stays(
    near: Seq<Seq<bool>>,
    reps: Seq<int>,
    added: int,
    i: int,
    k: nat,
)
    requires
        k <= reps.len(),
    ensures
        standing_for(near, reps.push(added), i, k) == standing_for(near, reps, i, k),
    decreases k,
{
    if k > 0 {
        earlier_standing_stays(near, reps, added, i, (k - 1) as nat);
    }
}

proof fn built_table_valid(
    entries: Seq<RequestModel>,
    near: Seq<Seq<bool>>,
    reps: Seq<int>,
    n: nat,
)
    requires
        n <= entries.len(),
        reps.len() <= MAX_DETUNES,
        forall|i: int| 0 <= i < n ==> #[trigger] standing_for(near, reps, i, reps.len())
            < reps.len(),
        table_of(entries, near, reps, n) is Ok,
    ensures
        table_valid(table_of(entries, near, reps, n)->Ok_0),
    decreases n,
{
    if n > 0 {
        built_table_valid(entries, near, reps, (n - 1) as nat);
        let i = n - 1;
        assert(standing_for(near, reps, i, reps.len()) < reps.len());
    }
}

/// Every remapping that can be built uses the channels 2-16 only, so that it
/// never touches the channel of plain notes.
pub proof fn remapped_notes_leave_first_channel(
    entries: Seq<RequestModel>,
    near: Seq<Seq<bool>>,
)
    requires
        near_covers(near, entries.len()),
        remapping(entries, near) is Ok,
    ensures
        table_valid(remapping(entries, near)->Ok_0),
{
    representatives_cover(entries, near, entries.len());
    let reps = representatives(entries, near, entries.len())->Ok_0;
    built_table_valid(entries, near, reps, entries.len());
}

/// Counting as one value is symmetric and transitive.
pub open spec fn near_equivalence(near: Seq<Seq<bool>>, n: nat) -> bool {
    &&& forall|i: int, j: int|
        0 <= i < n && 0 <= j < n ==> (#[trigger] near[i][j] ==> near[j][i])
    &&& forall|i: int, j: int, k: int|
        0 <= i < n && 0 <= j < n && 0 <= k < n && #[trigger] near[i][j] && #[trigger] near[j][k]
            ==> near[i][k]
}

/// Two entries share a channel exactly when their detune values count as one.
pub proof fn channels_follow_detunes(
    entries: Seq<RequestModel>,
    near: Seq<Seq<bool>>,
    i: int,
    j: int,
)
    requires
        near_covers(near, entries.len()),
        near_equivalence(near, entries.len()),
        representatives(entries, near, entries.len()) is Ok,
        0 <= i < entries.len(),
        0 <= j < entries.len(),
    ensures
        ({
            let reps = representatives(entries, near, entries.len())->Ok_0;
            (channel_of(near, reps, i) == channel_of(near, reps, j)) == near[i][j]
        }),
{
    representatives_cover(entries, near, entries.len());
    let reps = representatives(entries, near, entries.len())->Ok_0;
    standing_is_first(near, reps, i, reps.len());
    standing_is_first(near, reps, j, reps.len());
    let a = standing_for(near, reps, i, reps.len()) as int;
    let b = standing_for(near, reps, j, reps.len()) as int;
    let (ra, rb) = (reps[a], reps[b]);
    assert(near[ra][i] && near[rb][j]);
    if near[i][j] {
        assert(near[ra][j]);
        assert(near[j][i]);
        assert(near[rb][i]);
    }
    if a == b {
        assert(near[i][ra]);
        assert(near[i][j]);
    }
}

/// A remapped note's note-off reaches the channel and note of its note-on.
pub proof fn note_off_follows_note_on(
    table: Map<u8, RemapEntry>,
    on: MidiEvent,
    off: MidiEvent,
)
    requires
        table_valid(table),
        note_edge(on) is On,
        note_edge(off) is Off,
        on.1[1] == off.1[1],
        table.contains_key(on.1[1]),
    ensures
        ({
            let start = event_remapped(table, on)[0].1;
            let stop = event_remapped(table, off)[0].1;
            &&& start[0] & 0x0F == stop[0] & 0x0F
            &&& start[1] == stop[1]
            &&& start[0] & 0xF0 == 0x90
            &&& stop[0] & 0xF0 == status_type(off)
        }),
{
    let c = table[on.1[1]].channel;
    let s = status_type(on);
    let t = status_type(off);
    let sb = on.1[0];
    let tb = off.1[0];
    assert(c <= 15 && s == sb & 0xF0 ==> (s | c) & 0x0F == c && (s | c) & 0xF0 == s) by (bit_vector);
    assert(c <= 15 && t == tb & 0xF0 ==> (t | c) & 0x0F == c && (t | c) & 0xF0 == t) by (bit_vector);
}

} // verus!
