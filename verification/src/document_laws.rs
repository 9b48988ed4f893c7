//! How a session file's remappings are set out.

use vstd::prelude::*;

use crate::document::{
    line_of, lines, pitch, place_at, tidied, valued_fields, EntryModel, RemapTable,
};
use crate::notes::note_of;

verus! {

/// The fields of a note that have a value are kept, in order and with their
/// texts; the others are left out.
pub proof fn valued_fields_are_kept(fields: Seq<(Seq<char>, Option<Seq<char>>)>, n: nat)
    requires
        n <= fields.len(),
    ensures
        valued_fields(fields, n) == fields.take(n as int).filter(
            |f: (Seq<char>, Option<Seq<char>>)| f.1 is Some,
        ).map_values(|f: (Seq<char>, Option<Seq<char>>)| (f.0, f.1->0)),
    decreases n,
{
    reveal(Seq::filter);
    if n > 0 {
        valued_fields_are_kept(fields, (n - 1) as nat);
        assert(fields.take(n as int).drop_last() =~= fields.take(n - 1));
        let valued = |f: (Seq<char>, Option<Seq<char>>)| f.1 is Some;
        let text = |f: (Seq<char>, Option<Seq<char>>)| (f.0, f.1->0);
        let before = fields.take(n - 1).filter(valued);
        assert(fields[n - 1].1 is Some ==> before.push(fields[n - 1]).map_values(text)
            =~= before.map_values(text).push(text(fields[n - 1])));
    }
}

/// Where a key stands on the keyboard: at its note, and at the bottom if it is
/// none.
pub open spec fn key_height(key: Seq<char>) -> int {
    if note_of(key) is Ok {
        note_of(key)->Ok_0 as int
    } else {
        0
    }
}

/// A line is made of an entry under a header: it has its key, and in braces those
/// of its fields that have a value.
pub open spec fn line_made(e: (Seq<char>, EntryModel), line: (Seq<char>, EntryModel)) -> bool {
    &&& e.1 is Block
    &&& line.0 == e.0
    &&& line.1 is Inline
    &&& line.1->Inline_0 == (e.1->Block_0).filter(
        |f: (Seq<char>, Option<Seq<char>>)| f.1 is Some,
    ).map_values(|f: (Seq<char>, Option<Seq<char>>)| (f.0, f.1->0))
}

/// Line `k` is made of entry `from[k]`.
pub open spec fn lines_made(
    table: RemapTable,
    n: nat,
    out: RemapTable,
    from: Seq<int>,
) -> bool {
    &&& from.len() == out.len()
    &&& forall|k: int|
        #![trigger from[k]]
        0 <= k < from.len() ==> 0 <= from[k] < n && line_made(table[from[k]], out[k])
}

/// Every entry under a header is made into a line.
pub open spec fn entries_made(table: RemapTable, n: nat, from: Seq<int>) -> bool {
    forall|i: int| 0 <= i < n && (#[trigger] table[i]).1 is Block ==> from.contains(i)
}

/// Entry `i` comes ahead of entry `j`: it is lower, or as high and stood first.
pub open spec fn comes_ahead(table: RemapTable, i: int, j: int) -> bool {
    let low = key_height(table[i].0);
    let high = key_height(table[j].0);
    low < high || low == high && i < j
}

/// The lines rise, those of one height in the order in which they stood.
pub open spec fn lines_ordered(table: RemapTable, from: Seq<int>) -> bool {
    forall|j: int, k: int|
        #![trigger from[j], from[k]]
        0 <= j < k < from.len() ==> comes_ahead(table, from[j], from[k])
}

/// `from` tells for each line the entry that it was made of: every entry under a
/// header is made into one line, from low to high, those of one height in the
/// order in which they stood.
pub open spec fn set_out(table: RemapTable, n: nat, out: RemapTable, from: Seq<int>) -> bool {
    lines_made(table, n, out, from) && entries_made(table, n, from) && lines_ordered(table, from)
}

proof fn place_parts<T>(entries: Seq<(Seq<char>, T)>, p: u8, n: nat)
    requires
        n <= entries.len(),
        forall|i: int, j: int|
            0 <= i < j < entries.len() ==> pitch((#[trigger] entries[i]).0) <= pitch(
                (#[trigger] entries[j]).0,
            ),
    ensures
        place_at(entries, p, n) <= n,
        forall|i: int|
            0 <= i < place_at(entries, p, n) ==> pitch((#[trigger] entries[i]).0) <= p,
        forall|i: int|
            place_at(entries, p, n) <= i < n ==> pitch((#[trigger] entries[i]).0) > p,
    decreases n,
{
    if n > 0 {
        place_parts(entries, p, (n - 1) as nat);
    }
}

proof fn more_made(
    table: RemapTable,
    n: nat,
    out: RemapTable,
    from: Seq<int>,
    at: int,
    line: (Seq<char>, EntryModel),
)
    requires
        n < table.len(),
        0 <= at <= out.len(),
        lines_made(table, n, out, from),
        entries_made(table, n, from),
        line_made(table[n as int], line),
    ensures
        lines_made(table, n + 1, out.insert(at, line), from.insert(at, n as int)),
        entries_made(table, n + 1, from.insert(at, n as int)),
{
    let more = from.insert(at, n as int);
    assert forall|k: int|
        #![trigger more[k]]
        0 <= k < more.len() implies 0 <= more[k] < n + 1 && line_made(
        table[more[k]],
        out.insert(at, line)[k],
    ) by {
        if k < at {
            assert(more[k] == from[k]);
        } else if k > at {
            assert(more[k] == from[k - 1]);
        }
    }
    assert forall|i: int| 0 <= i < n + 1 && (#[trigger] table[i]).1 is Block implies more.contains(
        i,
    ) by {
        if i == n {
            assert(more[at] == i);
        } else {
            let k = choose|k: int| 0 <= k < from.len() && from[k] == i;
            if k < at {
                assert(more[k] == i);
            } else {
                assert(more[k + 1] == i);
            }
        }
    }
}

proof fn more_ordered(table: RemapTable, n: nat, from: Seq<int>, at: int)
    requires
        0 <= at <= from.len(),
        lines_ordered(table, from),
        forall|k: int| 0 <= k < at ==> comes_ahead(table, #[trigger] from[k], n as int),
        forall|k: int| at <= k < from.len() ==> comes_ahead(table, n as int, #[trigger] from[k]),
    ensures
        lines_ordered(table, from.insert(at, n as int)),
{
    let more = from.insert(at, n as int);
    assert forall|j: int, k: int|
        #![trigger more[j], more[k]]
        0 <= j < k < more.len() implies comes_ahead(table, more[j], more[k]) by {
        assert(j < at ==> more[j] == from[j]);
        assert(j > at ==> more[j] == from[j - 1]);
        assert(k < at ==> more[k] == from[k]);
        assert(k > at ==> more[k] == from[k - 1]);
    }
}

proof fn lines_set_out(table: RemapTable, n: nat) -> (from: Seq<int>)
    requires
        n <= table.len(),
    ensures
        set_out(table, n, lines(table, n), from),
    decreases n,
{
    if n == 0 {
        Seq::empty()
    } else {
        let before = lines(table, (n - 1) as nat);
        let earlier = lines_set_out(table, (n - 1) as nat);
        if let EntryModel::Block(fields) = table[n - 1].1 {
            let key = table[n - 1].0;
            assert forall|i: int, j: int| 0 <= i < j < before.len() implies pitch(
                (#[trigger] before[i]).0,
            ) <= pitch((#[trigger] before[j]).0) by {
                assert(comes_ahead(table, earlier[i], earlier[j]));
            }
            let at = place_at(before, pitch(key), before.len()) as int;
            place_parts(before, pitch(key), before.len());
            valued_fields_are_kept(fields, fields.len());
            assert(fields.take(fields.len() as int) =~= fields);
            assert(line_made(table[n - 1], line_of(table[n - 1])));
            more_made(table, (n - 1) as nat, before, earlier, at, line_of(table[n - 1]));
            assert forall|k: int| 0 <= k < at implies comes_ahead(
                table,
                #[trigger] earlier[k],
                n - 1,
            ) by {
                assert(pitch(before[k].0) <= pitch(key));
            }
            assert forall|k: int| at <= k < earlier.len() implies comes_ahead(
                table,
                n - 1,
                #[trigger] earlier[k],
            ) by {
                assert(pitch(before[k].0) > pitch(key));
            }
            more_ordered(table, (n - 1) as nat, earlier, at);
            earlier.insert(at, n - 1)
        } else {
            assert(entries_made(table, n, earlier));
            earlier
        }
    }
}

/// The remappings of a file are set out on one line each, from low to high: each
/// one that stood under a header of its own once, with its fields that have a
/// value; of two for one height the one that stood first comes first. A file
/// without remappings is left without.
pub proof fn remappings_are_set_out(table: Option<RemapTable>)
    ensures
        table is None ==> tidied(table) is None,
        table is Some ==> tidied(table) is Some && exists|from: Seq<int>|
            set_out(table->0, (table->0).len(), tidied(table)->0, from),
{
    if let Some(entries) = table {
        let from = lines_set_out(entries, entries.len());
        assert(set_out(table->0, (table->0).len(), tidied(table)->0, from));
    }
}

} // verus!
