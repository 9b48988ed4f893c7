//! The layout of a session file's note remappings: each on one line, in the
//! order of the keyboard.

use vstd::prelude::*;

use crate::notes::{note_of, parse_note_name};

verus! {

// ---------------------------------------------------------------------------
// TOML documents
// ---------------------------------------------------------------------------

/// `toml_edit::DocumentMut`, a parsed TOML document.
#[verifier::external_type_specification]
#[verifier::external_body]
pub struct ExDocument(toml_edit::DocumentMut);

/// `toml_edit::Table`, a table under a header of its own.
#[verifier::external_type_specification]
#[verifier::external_body]
pub struct ExTable(toml_edit::Table);

/// `toml_edit::InlineTable`, a table written in braces.
#[verifier::external_type_specification]
#[verifier::external_body]
pub struct ExInlineTable(toml_edit::InlineTable);

/// `toml_edit::Value`, anything that stands behind an equals sign.
#[verifier::external_type_specification]
#[verifier::external_body]
pub struct ExValue(toml_edit::Value);

/// What stands under a note of a `remap` table.
pub enum EntryModel {
    /// A table under a header: its fields, each with the text of its value, or
    /// `None` where the field holds tables.
    Block(Seq<(Seq<char>, Option<Seq<char>>)>),
    /// A table in braces: its fields with the texts of their values.
    Inline(Seq<(Seq<char>, Seq<char>)>),
    /// Anything else.
    Other,
}

/// The notes of a `remap` table with what stands under them, in order.
pub type RemapTable = Seq<(Seq<char>, EntryModel)>;

/// For each of the tables `[[tables]]`, what its table `child` holds, or `None`
/// for one that has no such table.
pub uninterp spec fn child_tables(
    doc: toml_edit::DocumentMut,
    tables: Seq<char>,
    child: Seq<char>,
) -> Seq<Option<RemapTable>>;

/// The document as it prints once nothing is left in the tables `child` of the
/// tables `[[tables]]`.
pub uninterp spec fn outside_children(
    doc: toml_edit::DocumentMut,
    tables: Seq<char>,
    child: Seq<char>,
) -> Seq<char>;

/// The document as it prints.
pub uninterp spec fn document_text(doc: toml_edit::DocumentMut) -> Seq<char>;

/// The fields of a table, each with the text of its value, or `None` where the
/// field holds tables.
pub uninterp spec fn table_fields(table: toml_edit::Table) -> Seq<(
    Seq<char>,
    Option<Seq<char>>,
)>;

/// The fields of a table in braces with the texts of their values.
pub uninterp spec fn inline_fields(table: toml_edit::InlineTable) -> Seq<(Seq<char>, Seq<char>)>;

/// A value as it prints.
pub uninterp spec fn value_text(value: toml_edit::Value) -> Seq<char>;

/// What a text holds: what the tables `child` of its tables `[[tables]]` hold and
/// the rest, or why it is no TOML.
pub uninterp spec fn parsed(
    text: Seq<char>,
    tables: Seq<char>,
    child: Seq<char>,
) -> Result<(Seq<Option<RemapTable>>, Seq<char>), Seq<char>>;

/// No key occurs twice.
pub open spec fn distinct<T>(pairs: Seq<(Seq<char>, T)>) -> bool {
    forall|i: int, j: int|
        0 <= i < j < pairs.len() ==> (#[trigger] pairs[i]).0 != (#[trigger] pairs[j]).0
}

/// Wraps `str::parse::<toml_edit::DocumentMut>`: what comes out, the error's
/// message included, depends on the text alone.
#[verifier::external_body]
fn parse_document(text: &str) -> (r: Result<toml_edit::DocumentMut, String>)
    ensures
        forall|tables: Seq<char>, child: Seq<char>|
            match (r, #[trigger] parsed(text@, tables, child)) {
                (Ok(doc), Ok(p)) => child_tables(doc, tables, child) == p.0 && outside_children(
                    doc,
                    tables,
                    child,
                ) == p.1,
                (Err(e), Err(m)) => e@ == m,
                _ => false,
            },
{
    text.parse::<toml_edit::DocumentMut>().map_err(|e| e.to_string())
}

/// Wraps `toml_edit::ArrayOfTables::len` on the document's tables `[[tables]]`:
/// their number, 0 where there are none.
#[verifier::external_body]
fn table_count(doc: &toml_edit::DocumentMut, tables: &str) -> (n: usize)
    ensures
        forall|child: Seq<char>| n == (#[trigger] child_tables(*doc, tables@, child)).len(),
{
    match doc.get(tables).and_then(|item| item.as_array_of_tables()) {
        Some(tables) => tables.len(),
        None => 0,
    }
}

/// Wraps `toml_edit::Table::iter` on the table `child` of the table at `at`: the
/// keys in order, no key twice, or `None` where there is no such table.
#[verifier::external_body]
fn child_keys(doc: &toml_edit::DocumentMut, tables: &str, at: usize, child: &str) -> (keys: Option<
    Vec<String>,
>)
    requires
        at < child_tables(*doc, tables@, child@).len(),
    ensures
        match (keys, child_tables(*doc, tables@, child@)[at as int]) {
            (Some(keys), Some(table)) => {
                &&& keys@.len() == table.len()
                &&& forall|i: int| 0 <= i < keys@.len() ==> (#[trigger] keys@[i])@ == table[i].0
                &&& forall|i: int, j: int|
                    0 <= i < j < keys@.len() ==> (#[trigger] keys@[i])@ != (#[trigger] keys@[j])@
            },
            (None, None) => true,
            _ => false,
        },
{
    let table = doc.get(tables)?.as_array_of_tables()?.get(at)?.get(child)?;
    Some(table.as_table()?.iter().map(|(key, _)| key.to_string()).collect())
}

/// Wraps `toml_edit::Table::remove` on the table `child` of the table at `at`: the
/// entry under `key` leaves, the others keep their order, and the entry is handed
/// out if it is a table under a header.
#[verifier::external_body]
fn take_entry(
    doc: &mut toml_edit::DocumentMut,
    tables: &str,
    at: usize,
    child: &str,
    key: &str,
) -> (entry: Option<toml_edit::Table>)
    requires
        at < child_tables(*old(doc), tables@, child@).len(),
        child_tables(*old(doc), tables@, child@)[at as int] is Some,
    ensures
        outside_children(*final(doc), tables@, child@) == outside_children(
            *old(doc),
            tables@,
            child@,
        ),
        forall|i: int|
            0 <= i < child_tables(*old(doc), tables@, child@)[at as int]->0.len() && (
            #[trigger] child_tables(*old(doc), tables@, child@)[at as int]->0[i]).0 == key@ ==> {
                let table = child_tables(*old(doc), tables@, child@)[at as int]->0;
                &&& child_tables(*final(doc), tables@, child@) == child_tables(
                    *old(doc),
                    tables@,
                    child@,
                ).update(at as int, Some(table.remove(i)))
                &&& match table[i].1 {
                    EntryModel::Block(fields) => entry is Some && table_fields(entry->0)
                        == fields,
                    _ => entry is None,
                }
            },
{
    let tables = doc.get_mut(tables)?.as_array_of_tables_mut()?;
    match tables.get_mut(at)?.get_mut(child)?.as_table_mut()?.remove(key) {
        Some(toml_edit::Item::Table(entry)) => Some(entry),
        _ => None,
    }
}

/// Wraps `toml_edit::Table::insert` on the table `child` of the table at `at`: an
/// entry under a key that is not there yet goes to the end.
#[verifier::external_body]
fn put_entry(
    doc: &mut toml_edit::DocumentMut,
    tables: &str,
    at: usize,
    child: &str,
    key: &str,
    entry: toml_edit::InlineTable,
)
    requires
        at < child_tables(*old(doc), tables@, child@).len(),
        child_tables(*old(doc), tables@, child@)[at as int] is Some,
        forall|i: int|
            0 <= i < child_tables(*old(doc), tables@, child@)[at as int]->0.len() ==> (
            #[trigger] child_tables(*old(doc), tables@, child@)[at as int]->0[i]).0 != key@,
    ensures
        outside_children(*final(doc), tables@, child@) == outside_children(
            *old(doc),
            tables@,
            child@,
        ),
        child_tables(*final(doc), tables@, child@) == child_tables(
            *old(doc),
            tables@,
            child@,
        ).update(
            at as int,
            Some(
                child_tables(*old(doc), tables@, child@)[at as int]->0.push(
                    (key@, EntryModel::Inline(inline_fields(entry))),
                ),
            ),
        ),
{
    let tables = doc.get_mut(tables).and_then(|item| item.as_array_of_tables_mut());
    let table = tables.and_then(|tables| tables.get_mut(at));
    if let Some(child) = table.and_then(|t| t.get_mut(child)?.as_table_mut()) {
        child.insert(key, toml_edit::Item::Value(toml_edit::Value::InlineTable(entry)));
    }
}

/// Wraps `toml_edit::Table::iter`: the fields in order, no key twice, each with
/// its value where it has one (`toml_edit::Item::as_value`).
#[verifier::external_body]
fn fields_of(table: &toml_edit::Table) -> (fields: Vec<(String, Option<toml_edit::Value>)>)
    ensures
        fields@.len() == table_fields(*table).len(),
        forall|i: int|
            0 <= i < fields@.len() ==> {
                let field = #[trigger] fields@[i];
                &&& field.0@ == table_fields(*table)[i].0
                &&& match (field.1, table_fields(*table)[i].1) {
                    (Some(value), Some(text)) => value_text(value) == text,
                    (None, None) => true,
                    _ => false,
                }
            },
        forall|i: int, j: int|
            0 <= i < j < fields@.len() ==> (#[trigger] fields@[i]).0@ != (
            #[trigger] fields@[j]).0@,
{
    table.iter().map(|(key, item)| (key.to_string(), item.as_value().cloned())).collect()
}

/// Wraps `toml_edit::InlineTable::new`: an empty table.
#[verifier::external_body]
fn empty_inline() -> (table: toml_edit::InlineTable)
    ensures
        inline_fields(table) == Seq::<(Seq<char>, Seq<char>)>::empty(),
{
    toml_edit::InlineTable::new()
}

/// Wraps `toml_edit::InlineTable::insert`: a field under a key that is not
/// there yet goes to the end.
#[verifier::external_body]
fn put_field(table: &mut toml_edit::InlineTable, key: &str, value: toml_edit::Value)
    requires
        forall|i: int|
            0 <= i < inline_fields(*old(table)).len() ==> (#[trigger] inline_fields(
                *old(table),
            )[i]).0 != key@,
    ensures
        inline_fields(*final(table)) == inline_fields(*old(table)).push(
            (key@, value_text(value)),
        ),
{
    table.insert(key, value);
}

/// Wraps `toml_edit::DocumentMut::to_string`.
#[verifier::external_body]
fn print_document(doc: &toml_edit::DocumentMut) -> (text: String)
    ensures
        text@ == document_text(*doc),
{
    doc.to_string()
}

// ---------------------------------------------------------------------------
// One line per note
// ---------------------------------------------------------------------------

/// The first `n` fields that have a value, with its text.
pub open spec fn valued_fields(
    fields: Seq<(Seq<char>, Option<Seq<char>>)>,
    n: nat,
) -> Seq<(Seq<char>, Seq<char>)>
    decreases n,
{
    if n == 0 {
        Seq::empty()
    } else {
        let before = valued_fields(fields, (n - 1) as nat);
        match fields[n - 1].1 {
            Some(text) => before.push((fields[n - 1].0, text)),
            None => before,
        }
    }
}

proof fn valued_fields_are_fields(fields: Seq<(Seq<char>, Option<Seq<char>>)>, n: nat, at: int)
    requires
        n <= fields.len(),
        0 <= at < valued_fields(fields, n).len(),
    ensures
        exists|i: int| 0 <= i < n && (#[trigger] fields[i]).0 == valued_fields(fields, n)[at].0,
    decreases n,
{
    let before = valued_fields(fields, (n - 1) as nat);
    if at < before.len() {
        valued_fields_are_fields(fields, (n - 1) as nat, at);
        let i = choose|i: int|
            0 <= i < n - 1 && (#[trigger] fields[i]).0 == valued_fields(
                fields,
                (n - 1) as nat,
            )[at].0;
        assert(fields[i].0 == valued_fields(fields, n)[at].0);
    } else {
        assert(fields[n - 1].0 == valued_fields(fields, n)[at].0);
    }
}

/// A table under a header as a table in braces. What holds no value is left
/// out.
fn inlined(entry: &toml_edit::Table) -> (out: toml_edit::InlineTable)
    ensures
        inline_fields(out) == valued_fields(table_fields(*entry), table_fields(*entry).len()),
{
    let fields = fields_of(entry);
    let ghost all = table_fields(*entry);
    let ghost listed = fields@;
    proof {
        assert forall|i: int, j: int| 0 <= i < j < all.len() implies (#[trigger] all[i]).0 != (
        #[trigger] all[j]).0 by {
            assert(listed[i].0@ != listed[j].0@);
        }
    }
    let mut out = empty_inline();
    for field in it: fields
        invariant
            it.seq() == listed,
            all == table_fields(*entry),
            listed.len() == all.len(),
            distinct(all),
            forall|k: int|
                0 <= k < listed.len() ==> {
                    let field = #[trigger] listed[k];
                    &&& field.0@ == all[k].0
                    &&& match (field.1, all[k].1) {
                        (Some(value), Some(text)) => value_text(value) == text,
                        (None, None) => true,
                        _ => false,
                    }
                },
            inline_fields(out) == valued_fields(all, it.index() as nat),
    {
        let ghost i = it.index();
        assert(field == listed[i]);
        let (key, value) = field;
        if let Some(value) = value {
            proof {
                assert forall|at: int| 0 <= at < inline_fields(out).len() implies (
                #[trigger] inline_fields(out)[at]).0 != key@ by {
                    valued_fields_are_fields(all, i as nat, at);
                    let k = choose|k: int|
                        0 <= k < i && (#[trigger] all[k]).0 == valued_fields(
                            all,
                            i as nat,
                        )[at].0;
                    assert(all[k].0 != all[i].0);
                }
            }
            put_field(&mut out, key.as_str(), value);
        }
    }
    out
}

// ---------------------------------------------------------------------------
// The order of the keyboard
// ---------------------------------------------------------------------------

/// Where a remapping stands on the keyboard: at its note, or at the bottom if
/// its key names none.
pub open spec fn pitch(key: Seq<char>) -> u8 {
    match note_of(key) {
        Ok(note) => note,
        Err(_) => 0,
    }
}

/// Where a remapping stands on the keyboard.
pub fn pitch_of(key: &str) -> (p: u8)
    ensures
        p == pitch(key@),
{
    match parse_note_name(key) {
        Ok(note) => note,
        Err(_) => 0,
    }
}

/// Among the first `n` entries, the place before the first one that is higher
/// than `p`.
pub open spec fn place_at<T>(entries: Seq<(Seq<char>, T)>, p: u8, n: nat) -> nat
    decreases n,
{
    if n == 0 {
        0
    } else {
        let before = place_at(entries, p, (n - 1) as nat);
        if before < n - 1 || pitch(entries[n - 1].0) > p {
            before
        } else {
            n
        }
    }
}

/// Ordered entries with one more, behind those of its pitch.
pub open spec fn placed<T>(entries: Seq<(Seq<char>, T)>, e: (Seq<char>, T)) -> Seq<
    (Seq<char>, T),
> {
    entries.insert(place_at(entries, pitch(e.0), entries.len()) as int, e)
}

/// The entry of a note once it is on one line.
pub open spec fn line_of(e: (Seq<char>, EntryModel)) -> (Seq<char>, EntryModel) {
    (
        e.0,
        match e.1 {
            EntryModel::Block(fields) => EntryModel::Inline(valued_fields(fields, fields.len())),
            other => other,
        },
    )
}

/// The first `n` entries that are tables under a header, on one line each, in
/// the order of the keyboard.
pub open spec fn lines(table: RemapTable, n: nat) -> RemapTable
    decreases n,
{
    if n == 0 {
        Seq::empty()
    } else {
        let before = lines(table, (n - 1) as nat);
        if table[n - 1].1 is Block {
            placed(before, line_of(table[n - 1]))
        } else {
            before
        }
    }
}

/// What an instrument's `remap` table becomes.
pub open spec fn tidied(table: Option<RemapTable>) -> Option<RemapTable> {
    match table {
        Some(table) => Some(lines(table, table.len())),
        None => None,
    }
}

/// Entries from low to high.
pub open spec fn rising<T>(entries: Seq<(Seq<char>, T)>) -> bool {
    forall|i: int, j: int|
        0 <= i < j < entries.len() ==> pitch((#[trigger] entries[i]).0) <= pitch(
            (#[trigger] entries[j]).0,
        )
}

proof fn place_splits<T>(entries: Seq<(Seq<char>, T)>, p: u8, n: nat)
    requires
        n <= entries.len(),
    ensures
        place_at(entries, p, n) <= n,
        forall|i: int|
            0 <= i < place_at(entries, p, n) ==> pitch((#[trigger] entries[i]).0) <= p,
        place_at(entries, p, n) < n ==> pitch(entries[place_at(entries, p, n) as int].0) > p,
    decreases n,
{
    if n > 0 {
        place_splits(entries, p, (n - 1) as nat);
    }
}

proof fn place_settles<T>(entries: Seq<(Seq<char>, T)>, p: u8, n: nat, m: nat)
    requires
        n <= m <= entries.len(),
        place_at(entries, p, n) < n,
    ensures
        place_at(entries, p, m) == place_at(entries, p, n),
    decreases m,
{
    if n < m {
        place_settles(entries, p, n, (m - 1) as nat);
        place_splits(entries, p, n);
    }
}

/// The lines of a `remap` table rise along the keyboard, and they are those of
/// its tables: none is lost, none is made up.
pub proof fn lines_rise(table: RemapTable, n: nat)
    requires
        n <= table.len(),
    ensures
        rising(lines(table, n)),
        lines(table, n).to_multiset() == table.take(n as int).filter(
            |e: (Seq<char>, EntryModel)| e.1 is Block,
        ).map_values(|e: (Seq<char>, EntryModel)| line_of(e)).to_multiset(),
    decreases n,
{
    broadcast use vstd::seq_lib::group_to_multiset_ensures;

    let block = |e: (Seq<char>, EntryModel)| e.1 is Block;
    let line = |e: (Seq<char>, EntryModel)| line_of(e);
    reveal(Seq::filter);
    if n > 0 {
        lines_rise(table, (n - 1) as nat);
        let before = lines(table, (n - 1) as nat);
        let e = table[n - 1];
        assert(table.take(n as int).drop_last() =~= table.take(n - 1));
        let kept = table.take(n - 1).filter(block);
        if e.1 is Block {
            let at = place_at(before, pitch(e.0), before.len()) as int;
            place_splits(before, pitch(e.0), before.len());
            assert(table.take(n as int).filter(block) =~= kept.push(e));
            assert(kept.push(e).map_values(line) =~= kept.map_values(line).push(line_of(e)));
        } else {
            assert(table.take(n as int).filter(block) =~= kept);
        }
    } else {
        assert(table.take(0).filter(block) =~= Seq::empty());
        assert(lines(table, 0) =~= table.take(0).filter(block).map_values(line));
    }
}

// ---------------------------------------------------------------------------
// The whole document
// ---------------------------------------------------------------------------

/// A line waiting to be written back.
struct Line {
    pitch: u8,
    key: String,
    table: toml_edit::InlineTable,
}

spec fn line_list(lines: Seq<Line>) -> RemapTable {
    Seq::new(lines.len(), |i: int| (lines[i].key@, EntryModel::Inline(inline_fields(lines[i].table))))
}

spec fn pitched(lines: Seq<Line>) -> bool {
    forall|i: int| 0 <= i < lines.len() ==> (#[trigger] lines[i]).pitch == pitch(lines[i].key@)
}

fn place_line(lines: &mut Vec<Line>, line: Line)
    requires
        pitched(old(lines)@),
        line.pitch == pitch(line.key@),
    ensures
        pitched(final(lines)@),
        line_list(final(lines)@) == placed(
            line_list(old(lines)@),
            (line.key@, EntryModel::Inline(inline_fields(line.table))),
        ),
{
    let ghost list = line_list(lines@);
    let mut at: usize = 0;
    while at < lines.len() && lines[at].pitch <= line.pitch
        invariant
            at <= lines.len(),
            pitched(lines@),
            list == line_list(lines@),
            place_at(list, line.pitch, at as nat) == at,
        decreases lines.len() - at,
    {
        assert(list[at as int].0 == lines@[at as int].key@);
        at += 1;
    }
    proof {
        if at < lines.len() {
            assert(list[at as int].0 == lines@[at as int].key@);
            assert(place_at(list, line.pitch, (at + 1) as nat) == at);
            place_settles(list, line.pitch, (at + 1) as nat, list.len());
        }
    }
    let ghost before = lines@;
    let ghost added = line;
    lines.insert(at, line);
    assert(line_list(lines@) =~= list.insert(
        at as int,
        (added.key@, EntryModel::Inline(inline_fields(added.table))),
    ));
    assert(lines@ =~= before.insert(at as int, added));
}


proof fn lines_keep_keys(table: RemapTable, n: nat)
    requires
        n <= table.len(),
        distinct(table),
    ensures
        distinct(lines(table, n)),
        forall|at: int|
            0 <= at < lines(table, n).len() ==> exists|i: int|
                0 <= i < n && (#[trigger] table[i]).0 == (#[trigger] lines(table, n)[at]).0,
    decreases n,
{
    if n > 0 {
        lines_keep_keys(table, (n - 1) as nat);
        let before = lines(table, (n - 1) as nat);
        let e = table[n - 1];
        if e.1 is Block {
            let place = place_at(before, pitch(e.0), before.len()) as int;
            place_splits(before, pitch(e.0), before.len());
            let after = lines(table, n);
            assert forall|i: int| 0 <= i < before.len() implies (#[trigger] before[i]).0
                != e.0 by {
                let k = choose|k: int| 0 <= k < n - 1 && (#[trigger] table[k]).0 == before[i].0;
                assert(table[k].0 != e.0);
            }
            assert forall|at: int| 0 <= at < after.len() implies exists|i: int|
                0 <= i < n && (#[trigger] table[i]).0 == (#[trigger] after[at]).0 by {
                if at == place {
                    assert(table[n - 1].0 == after[at].0);
                } else {
                    let was = if at < place {
                        at
                    } else {
                        at - 1
                    };
                    assert(after[at] == before[was]);
                    let k = choose|k: int|
                        0 <= k < n - 1 && (#[trigger] table[k]).0 == before[was].0;
                    assert(table[k].0 == after[at].0);
                }
            }
            assert forall|i: int, j: int| 0 <= i < j < after.len() implies (
            #[trigger] after[i]).0 != (#[trigger] after[j]).0 by {
                let a = if i < place {
                    i
                } else {
                    i - 1
                };
                let b = if j < place {
                    j
                } else {
                    j - 1
                };
                if i != place {
                    assert(after[i] == before[a]);
                }
                if j != place {
                    assert(after[j] == before[b]);
                }
            }
        } else {
            assert forall|at: int| 0 <= at < before.len() implies exists|i: int|
                0 <= i < n && (#[trigger] table[i]).0 == (#[trigger] before[at]).0 by {
                let k = choose|k: int| 0 <= k < n - 1 && (#[trigger] table[k]).0 == before[at].0;
                assert(table[k].0 == before[at].0);
            }
        }
    }
}

fn tidy_table(doc: &mut toml_edit::DocumentMut, tables: &str, at: usize, child: &str)
    requires
        at < child_tables(*old(doc), tables@, child@).len(),
    ensures
        outside_children(*final(doc), tables@, child@) == outside_children(
            *old(doc),
            tables@,
            child@,
        ),
        child_tables(*final(doc), tables@, child@) == child_tables(
            *old(doc),
            tables@,
            child@,
        ).update(at as int, tidied(child_tables(*old(doc), tables@, child@)[at as int])),
{
    let ghost start = child_tables(*doc, tables@, child@);
    let ghost outside = outside_children(*doc, tables@, child@);
    let keys: Vec<String> = match child_keys(doc, tables, at, child) {
        Some(keys) => keys,
        None => {
            assert(start.update(at as int, None) =~= start);
            return ;
        },
    };
    let ghost table = start[at as int]->0;
    let ghost names = keys@;
    assert forall|i: int, j: int| 0 <= i < j < table.len() implies (#[trigger] table[i]).0 != (
    #[trigger] table[j]).0 by {
        assert(names[i]@ != names[j]@);
    }
    let mut rows: Vec<Line> = Vec::new();
    assert(table.skip(0) =~= table);
    assert(start.update(at as int, Some(table.skip(0))) =~= start);
    assert(line_list(rows@) =~= lines(table, 0));
    for key in it: keys
        invariant
            it.seq() == names,
            at < start.len(),
            table.len() == names.len(),
            forall|i: int| 0 <= i < names.len() ==> (#[trigger] names[i])@ == table[i].0,
            outside_children(*doc, tables@, child@) == outside,
            child_tables(*doc, tables@, child@) == start.update(
                at as int,
                Some(table.skip(it.index() as int)),
            ),
            pitched(rows@),
            line_list(rows@) == lines(table, it.index() as nat),
    {
        let ghost k = it.index() as int;
        assert(key == names[k]);
        assert(child_tables(*doc, tables@, child@)[at as int]->0[0].0 == key@);
        let taken = take_entry(doc, tables, at, child, key.as_str());
        assert(table.skip(k).remove(0) =~= table.skip(k + 1));
        assert(child_tables(*doc, tables@, child@) =~= start.update(
            at as int,
            Some(table.skip(k + 1)),
        ));
        if let Some(entry) = taken {
            let line = Line { pitch: pitch_of(key.as_str()), key, table: inlined(&entry) };
            place_line(&mut rows, line);
        }
    }
    let ghost all = line_list(rows@);
    let ghost waiting = rows@;
    assert(all == lines(table, table.len()));
    proof {
        lines_keep_keys(table, table.len());
    }
    assert(table.skip(table.len() as int) =~= all.take(0));
    for row in it: rows
        invariant
            it.seq() == waiting,
            at < start.len(),
            all == line_list(waiting),
            distinct(all),
            outside_children(*doc, tables@, child@) == outside,
            child_tables(*doc, tables@, child@) == start.update(
                at as int,
                Some(all.take(it.index() as int)),
            ),
    {
        let ghost k = it.index() as int;
        assert(row == waiting[k]);
        assert(all[k] == (row.key@, EntryModel::Inline(inline_fields(row.table))));
        put_entry(doc, tables, at, child, row.key.as_str(), row.table);
        assert(all.take(k).push(all[k]) =~= all.take(k + 1));
        assert(child_tables(*doc, tables@, child@) =~= start.update(
            at as int,
            Some(all.take(k + 1)),
        ));
    }
    assert(all.take(all.len() as int) =~= all);
}

/// The `remap` tables of a session file with each entry on one line, in the
/// order of the keyboard; entries that are not tables under a header are
/// dropped. The rest of the document stays as it is.
pub fn inline_remap_entries(input: &str) -> (r: Result<String, String>)
    ensures
        match (r, parsed(input@, "instrument"@, "remap"@)) {
            (Ok(text), Ok(p)) => exists|doc: toml_edit::DocumentMut|
                {
                    &&& text@ == #[trigger] document_text(doc)
                    &&& child_tables(doc, "instrument"@, "remap"@) == p.0.map_values(
                        |table: Option<RemapTable>| tidied(table),
                    )
                    &&& outside_children(doc, "instrument"@, "remap"@) == p.1
                },
            (Err(e), Err(m)) => e@ == m,
            _ => false,
        },
{
    let tables: &str = "instrument";
    let child: &str = "remap";
    let mut doc = match parse_document(input) {
        Ok(doc) => doc,
        Err(e) => {
            return Err(e);
        },
    };
    let ghost start = child_tables(doc, tables@, child@);
    let ghost outside = outside_children(doc, tables@, child@);
    let ghost tidy = start.map_values(|table: Option<RemapTable>| tidied(table));
    let n: usize = table_count(&doc, tables);
    let mut i: usize = 0;
    while i < n
        invariant
            i <= n,
            n == start.len(),
            outside_children(doc, tables@, child@) == outside,
            tidy == start.map_values(|table: Option<RemapTable>| tidied(table)),
            child_tables(doc, tables@, child@).len() == n,
            forall|k: int|
                0 <= k < i ==> (#[trigger] child_tables(doc, tables@, child@)[k]) == tidy[k],
            forall|k: int|
                i <= k < n ==> (#[trigger] child_tables(doc, tables@, child@)[k]) == start[k],
        decreases n - i,
    {
        tidy_table(&mut doc, tables, i, child);
        i += 1;
    }
    assert(child_tables(doc, tables@, child@) =~= tidy);
    Ok(print_document(&doc))
}

} // verus!
