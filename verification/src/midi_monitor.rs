//! A live tally of incoming MIDI messages for the on-screen monitor.
//!
//! Messages are gathered by kind (note, bend, channel pressure, poly
//! aftertouch, each controller number), whatever their channel. Each kind has
//! one row with its latest bytes and a count, so that a controller that floods
//! one dimension ticks up in one row. A disabled monitor does nothing.

use vstd::prelude::*;

use crate::text::{
    dec, key_place, keys_sorted, padded, place_settled, placing_keeps_keys_sorted, precedes,
    push_dec, push_padded, same_text, text_order_is_total,
};

verus! {

/// One kind of message: its latest bytes and how often it came.
#[derive(Debug)]
pub struct TallyRow {
    pub kind: String,
    pub detail: String,
    pub count: u64,
}

/// What a row holds.
pub struct RowModel {
    pub kind: Seq<char>,
    pub detail: Seq<char>,
    pub count: u64,
}

impl View for TallyRow {
    type V = RowModel;

    open spec fn view(&self) -> RowModel {
        RowModel { kind: self.kind@, detail: self.detail@, count: self.count }
    }
}

/// Rows as a sequence of models.
pub open spec fn row_list(rows: Seq<TallyRow>) -> Seq<RowModel> {
    Seq::new(rows.len(), |i: int| rows[i]@)
}

/// A tally of message kinds.
#[derive(Debug)]
pub struct MidiMonitor {
    enabled: bool,
    tally: Vec<TallyRow>,
}

impl MidiMonitor {
    /// Whether messages are recorded.
    pub closed spec fn on(self) -> bool {
        self.enabled
    }

    /// The rows, by kind.
    pub closed spec fn rows(self) -> Seq<RowModel> {
        row_list(self.tally@)
    }
}

// ---------------------------------------------------------------------------
// Labels
// ---------------------------------------------------------------------------

/// A hexadecimal digit, in lower case.
pub open spec fn hex_digit(d: nat) -> char {
    if d < 10 {
        (d + '0' as nat) as char
    } else {
        (d - 10 + 'a' as nat) as char
    }
}

/// A byte as two hexadecimal digits.
pub open spec fn hex_byte(b: u8) -> Seq<char> {
    seq![hex_digit((b / 16) as nat), hex_digit((b % 16) as nat)]
}

/// What a message in the system range is called. System exclusive messages go
/// by manufacturer, so that proprietary chatter is told apart.
pub open spec fn system_text(bytes: Seq<u8>) -> Seq<char> {
    if bytes[0] == 0xF0 {
        if bytes.len() < 4 {
            "SysEx"@
        } else if bytes[1] == 0x00 && bytes[2] == 0x21 && bytes[3] == 0x10 {
            "SysEx (ROLI)"@
        } else if bytes[1] == 0x7E || bytes[1] == 0x7F {
            "SysEx (universal)"@
        } else {
            "SysEx (mfr 0x"@ + hex_byte(bytes[1]) + ")"@
        }
    } else if bytes[0] == 0xF8 {
        "Clock"@
    } else if bytes[0] == 0xFA {
        "Start"@
    } else if bytes[0] == 0xFB {
        "Continue"@
    } else if bytes[0] == 0xFC {
        "Stop"@
    } else if bytes[0] == 0xFE {
        "Active Sensing"@
    } else if bytes[0] == 0xFF {
        "Reset"@
    } else {
        "System 0x"@ + hex_byte(bytes[0])
    }
}

/// The kind of a message.
pub open spec fn kind_text(bytes: Seq<u8>) -> Seq<char> {
    let status = bytes[0] & 0xF0;
    if status == 0x80 {
        "Note Off"@
    } else if status == 0x90 {
        "Note On"@
    } else if status == 0xA0 {
        "Poly Aftertouch"@
    } else if status == 0xB0 {
        "CC "@ + dec(
            if bytes.len() > 1 {
                bytes[1] as nat
            } else {
                0
            },
        )
    } else if status == 0xC0 {
        "Program"@
    } else if status == 0xD0 {
        "Channel Pressure"@
    } else if status == 0xE0 {
        "Pitch Bend"@
    } else {
        system_text(bytes)
    }
}

/// The first `n` bytes in hexadecimal, with commas between them.
pub open spec fn bytes_joined(bytes: Seq<u8>, n: nat) -> Seq<char>
    decreases n,
{
    if n == 0 {
        Seq::empty()
    } else if n == 1 {
        hex_byte(bytes[0])
    } else {
        bytes_joined(bytes, (n - 1) as nat) + seq![',', ' '] + hex_byte(bytes[n - 1])
    }
}

/// A message's bytes as a bracketed list.
pub open spec fn bytes_text(bytes: Seq<u8>) -> Seq<char> {
    seq!['['] + bytes_joined(bytes, bytes.len()) + seq![']']
}

fn push_hex(s: &mut String, b: u8)
    ensures
        final(s)@ == old(s)@ + hex_byte(b),
{
    let ghost before = s@;
    s.push(hex_of(b / 16));
    s.push(hex_of(b % 16));
    assert(s@ =~= before + hex_byte(b));
}

fn hex_of(d: u8) -> (c: char)
    requires
        d < 16,
    ensures
        c == hex_digit(d as nat),
{
    if d < 10 {
        (d + 48) as char
    } else {
        (d + 87) as char
    }
}

/// Label a message in the system range.
pub fn system_label(bytes: &[u8]) -> (label: String)
    requires
        bytes@.len() > 0,
    ensures
        label@ == system_text(bytes@),
{
    match bytes[0] {
        0xF0 => {
            if bytes.len() < 4 {
                "SysEx".to_owned()
            } else if bytes[1] == 0x00 && bytes[2] == 0x21 && bytes[3] == 0x10 {
                "SysEx (ROLI)".to_owned()
            } else if bytes[1] == 0x7E || bytes[1] == 0x7F {
                "SysEx (universal)".to_owned()
            } else {
                let mut label: String = "SysEx (mfr 0x".to_owned();
                push_hex(&mut label, bytes[1]);
                label.append(")");
                label
            }
        },
        0xF8 => "Clock".to_owned(),
        0xFA => "Start".to_owned(),
        0xFB => "Continue".to_owned(),
        0xFC => "Stop".to_owned(),
        0xFE => "Active Sensing".to_owned(),
        0xFF => "Reset".to_owned(),
        b => {
            let mut label: String = "System 0x".to_owned();
            push_hex(&mut label, b);
            label
        },
    }
}

fn kind_label(bytes: &[u8]) -> (label: String)
    requires
        bytes@.len() > 0,
    ensures
        label@ == kind_text(bytes@),
{
    match bytes[0] & 0xF0 {
        0x80 => "Note Off".to_owned(),
        0x90 => "Note On".to_owned(),
        0xA0 => "Poly Aftertouch".to_owned(),
        0xB0 => {
            let mut label: String = "CC ".to_owned();
            let number: u8 = if bytes.len() > 1 {
                bytes[1]
            } else {
                0
            };
            push_dec(&mut label, number as u64);
            label
        },
        0xC0 => "Program".to_owned(),
        0xD0 => "Channel Pressure".to_owned(),
        0xE0 => "Pitch Bend".to_owned(),
        _ => system_label(bytes),
    }
}

/// A message's bytes as a bracketed list.
pub fn detail_of(bytes: &[u8]) -> (detail: String)
    ensures
        detail@ == bytes_text(bytes@),
{
    let mut detail: String = String::new();
    detail.push('[');
    let mut i: usize = 0;
    assert(detail@ =~= seq!['['] + bytes_joined(bytes@, 0));
    while i < bytes.len()
        invariant
            i <= bytes.len(),
            detail@ == seq!['['] + bytes_joined(bytes@, i as nat),
        decreases bytes.len() - i,
    {
        if i > 0 {
            detail.push(',');
            detail.push(' ');
        }
        push_hex(&mut detail, bytes[i]);
        assert(detail@ =~= seq!['['] + bytes_joined(bytes@, (i + 1) as nat));
        i += 1;
    }
    detail.push(']');
    assert(detail@ =~= bytes_text(bytes@));
    detail
}

// ---------------------------------------------------------------------------
// The tally
// ---------------------------------------------------------------------------

/// The kinds of the rows.
pub open spec fn row_kinds(rows: Seq<RowModel>) -> Seq<Seq<char>> {
    Seq::new(rows.len(), |i: int| rows[i].kind)
}

/// The rows once a message of a kind was recorded.
pub open spec fn rows_recorded(
    rows: Seq<RowModel>,
    kind: Seq<char>,
    detail: Seq<char>,
) -> Seq<RowModel> {
    let at = key_place(row_kinds(rows), kind, rows.len()) as int;
    if at < rows.len() && rows[at].kind == kind {
        let count = rows[at].count;
        rows.update(
            at,
            RowModel {
                kind,
                detail,
                count: if count < u64::MAX {
                    (count + 1) as u64
                } else {
                    count
                },
            },
        )
    } else {
        rows.insert(at, RowModel { kind, detail, count: 1 })
    }
}

/// The rows once a message came in. One without bytes is nothing.
pub open spec fn message_tallied(rows: Seq<RowModel>, bytes: Seq<u8>) -> Seq<RowModel> {
    if bytes.len() > 0 {
        rows_recorded(rows, kind_text(bytes), bytes_text(bytes))
    } else {
        rows
    }
}

/// A row as it is displayed.
pub open spec fn row_text(row: RowModel) -> Seq<char> {
    padded(row.kind, 17) + padded(row.detail, 20) + seq!['\u{d7}'] + dec(row.count as nat)
}

/// Recording keeps the rows in dictionary order, with each kind in one row.
pub proof fn recording_keeps_rows_sorted(
    rows: Seq<RowModel>,
    kind: Seq<char>,
    detail: Seq<char>,
)
    requires
        keys_sorted(row_kinds(rows)),
    ensures
        keys_sorted(row_kinds(rows_recorded(rows, kind, detail))),
{
    let kinds = row_kinds(rows);
    let at = key_place(kinds, kind, kinds.len()) as int;
    let after = row_kinds(rows_recorded(rows, kind, detail));
    placing_keeps_keys_sorted(kinds, kind);
    if at < rows.len() && rows[at].kind == kind {
        assert(after =~= kinds);
    } else {
        assert(after =~= kinds.insert(at, kind));
    }
}

impl MidiMonitor {
    /// The rows are in order, and a disabled monitor has none.
    pub open spec fn wf(self) -> bool {
        keys_sorted(row_kinds(self.rows())) && (!self.on() ==> self.rows().len() == 0)
    }

    /// A monitor without rows.
    pub fn new(enabled: bool) -> (m: Self)
        ensures
            m.on() == enabled,
            m.rows() == Seq::<RowModel>::empty(),
            m.wf(),
    {
        let m = MidiMonitor { enabled, tally: Vec::new() };
        assert(m.rows() =~= Seq::empty());
        m
    }

    /// Whether messages are recorded.
    pub fn is_enabled(&self) -> (r: bool)
        ensures
            r == self.on(),
    {
        self.enabled
    }

    /// Record one raw message. Nothing happens when disabled, or without
    /// bytes.
    pub fn record(&mut self, bytes: &[u8])
        requires
            old(self).wf(),
        ensures
            final(self).wf(),
            final(self).on() == old(self).on(),
            final(self).rows() == (if old(self).on() {
                message_tallied(old(self).rows(), bytes@)
            } else {
                old(self).rows()
            }),
    {
        if !self.enabled || bytes.len() == 0 {
            return ;
        }
        let ghost rows = self.rows();
        let ghost kinds = row_kinds(rows);
        let kind = kind_label(bytes);
        let detail = detail_of(bytes);
        let mut at: usize = 0;
        while at < self.tally.len() && precedes(self.tally[at].kind.as_str(), kind.as_str())
            invariant
                rows == self.rows(),
                kinds == row_kinds(rows),
                rows.len() == self.tally.len(),
                self.enabled,
                at <= self.tally.len(),
                key_place(kinds, kind@, at as nat) == at,
            decreases self.tally.len() - at,
        {
            assert(kinds[at as int] == self.tally@[at as int]@.kind);
            at += 1;
        }
        proof {
            recording_keeps_rows_sorted(rows, kind@, detail@);
            if at < rows.len() {
                assert(kinds[at as int] == self.tally@[at as int]@.kind);
                assert(key_place(kinds, kind@, (at + 1) as nat) == at);
                place_settled(kinds, kind@, (at + 1) as nat, rows.len());
            }
        }
        if at < self.tally.len() && same_text(self.tally[at].kind.as_str(), kind.as_str()) {
            self.tally[at].detail = detail;
            self.tally[at].count = self.tally[at].count.saturating_add(1);
        } else {
            self.tally.insert(at, TallyRow { kind, detail, count: 1 });
        }
        assert(self.rows() =~= rows_recorded(rows, kind_text(bytes@), bytes_text(bytes@)));
    }

    /// Rows for display, one per kind of message seen.
    pub fn snapshot(&self) -> (lines: Vec<String>)
        ensures
            lines@.len() == self.rows().len(),
            forall|i: int|
                0 <= i < lines@.len() ==> (#[trigger] lines@[i])@ == row_text(self.rows()[i]),
    {
        let mut lines: Vec<String> = Vec::new();
        let mut i: usize = 0;
        while i < self.tally.len()
            invariant
                i <= self.tally.len(),
                lines@.len() == i,
                forall|k: int| 0 <= k < i ==> (#[trigger] lines@[k])@ == row_text(self.rows()[k]),
            decreases self.tally.len() - i,
        {
            let row: &TallyRow = &self.tally[i];
            let mut line: String = String::new();
            push_padded(&mut line, row.kind.as_str(), 17);
            push_padded(&mut line, row.detail.as_str(), 20);
            line.push('\u{d7}');
            push_dec(&mut line, row.count);
            assert(line@ =~= row_text(self.rows()[i as int]));
            lines.push(line);
            i += 1;
        }
        lines
    }
}

// ---------------------------------------------------------------------------
// A stream of messages
// ---------------------------------------------------------------------------

/// The rows of an enabled monitor after a stream of messages.
pub open spec fn rows_after(messages: Seq<Seq<u8>>) -> Seq<RowModel>
    decreases messages.len(),
{
    if messages.len() == 0 {
        Seq::empty()
    } else {
        message_tallied(rows_after(messages.drop_last()), messages.last())
    }
}

/// A message has bytes and is of a kind.
pub open spec fn is_kind(bytes: Seq<u8>, kind: Seq<char>) -> bool {
    bytes.len() > 0 && kind_text(bytes) == kind
}

/// How many messages are of a kind.
pub open spec fn kind_count(messages: Seq<Seq<u8>>, kind: Seq<char>) -> nat
    decreases messages.len(),
{
    if messages.len() == 0 {
        0
    } else {
        kind_count(messages.drop_last(), kind) + if is_kind(messages.last(), kind) {
            1nat
        } else {
            0
        }
    }
}

/// How many messages have bytes.
pub open spec fn message_count(messages: Seq<Seq<u8>>) -> nat
    decreases messages.len(),
{
    if messages.len() == 0 {
        0
    } else {
        message_count(messages.drop_last()) + if messages.last().len() > 0 {
            1nat
        } else {
            0
        }
    }
}

/// The message at `j` is the last one of a kind.
pub open spec fn last_of_kind(messages: Seq<Seq<u8>>, kind: Seq<char>, j: int) -> bool {
    &&& 0 <= j < messages.len()
    &&& is_kind(messages[j], kind)
    &&& forall|k: int| j < k < messages.len() ==> !is_kind(#[trigger] messages[k], kind)
}

/// A row counts the messages of its kind and shows the last of them.
pub open spec fn row_sums_up(messages: Seq<Seq<u8>>, row: RowModel) -> bool {
    &&& row.count == if kind_count(messages, row.kind) < u64::MAX {
        kind_count(messages, row.kind) as int
    } else {
        u64::MAX as int
    }
    &&& exists|j: int|
        #[trigger] last_of_kind(messages, row.kind, j) && row.detail == bytes_text(messages[j])
}

/// The rows' counts, added up.
pub open spec fn counts_sum(rows: Seq<RowModel>) -> int
    decreases rows.len(),
{
    if rows.len() == 0 {
        0
    } else {
        counts_sum(rows.drop_last()) + rows.last().count
    }
}

proof fn inserting_adds(rows: Seq<RowModel>, at: int, row: RowModel)
    requires
        0 <= at <= rows.len(),
    ensures
        counts_sum(rows.insert(at, row)) == counts_sum(rows) + row.count,
    decreases rows.len(),
{
    let after = rows.insert(at, row);
    if at == rows.len() {
        assert(after.drop_last() =~= rows);
    } else {
        inserting_adds(rows.drop_last(), at, row);
        assert(after.drop_last() =~= rows.drop_last().insert(at, row));
    }
}

proof fn updating_adds(rows: Seq<RowModel>, at: int, row: RowModel)
    requires
        0 <= at < rows.len(),
    ensures
        counts_sum(rows.update(at, row)) == counts_sum(rows) - rows[at].count + row.count,
    decreases rows.len(),
{
    let after = rows.update(at, row);
    if at == rows.len() - 1 {
        assert(after.drop_last() =~= rows.drop_last());
    } else {
        updating_adds(rows.drop_last(), at, row);
        assert(after.drop_last() =~= rows.drop_last().update(at, row));
    }
}

proof fn kinds_are_messages(messages: Seq<Seq<u8>>, kind: Seq<char>)
    ensures
        kind_count(messages, kind) <= message_count(messages),
        kind_count(messages, kind) == 0 ==> forall|j: int|
            0 <= j < messages.len() ==> !is_kind(#[trigger] messages[j], kind),
    decreases messages.len(),
{
    if messages.len() > 0 {
        let rest = messages.drop_last();
        kinds_are_messages(rest, kind);
        assert(forall|j: int| 0 <= j < rest.len() ==> #[trigger] messages[j] == rest[j]);
    }
}

/// A message leaves the rows of the other kinds as they are.
proof fn other_kinds_stay(messages: Seq<Seq<u8>>, row: RowModel)
    requires
        messages.len() > 0,
        !is_kind(messages.last(), row.kind),
        row_sums_up(messages.drop_last(), row),
    ensures
        row_sums_up(messages, row),
{
    let rest = messages.drop_last();
    let j = choose|j: int|
        #[trigger] last_of_kind(rest, row.kind, j) && row.detail == bytes_text(rest[j]);
    assert(forall|k: int| 0 <= k < rest.len() ==> #[trigger] messages[k] == rest[k]);
    assert(last_of_kind(messages, row.kind, j));
}

proof fn kind_seen(messages: Seq<Seq<u8>>, kind: Seq<char>) -> (j: int)
    requires
        kind_count(messages, kind) > 0,
    ensures
        0 <= j < messages.len(),
        is_kind(messages[j], kind),
    decreases messages.len(),
{
    if is_kind(messages.last(), kind) {
        messages.len() - 1
    } else {
        kind_seen(messages.drop_last(), kind)
    }
}

/// Rows sum up messages: they are in dictionary order, one for each kind of
/// message seen and none for another; each counts the messages of its kind and
/// shows the last of them; and the counts add up to the number of messages, as
/// long as that can be counted.
pub open spec fn rows_sum_up(messages: Seq<Seq<u8>>, rows: Seq<RowModel>) -> bool {
    &&& keys_sorted(row_kinds(rows))
    &&& forall|i: int| 0 <= i < rows.len() ==> row_sums_up(messages, #[trigger] rows[i])
    &&& forall|j: int|
        0 <= j < messages.len() && (#[trigger] messages[j]).len() > 0 ==> row_kinds(rows).contains(
            kind_text(messages[j]),
        )
    &&& message_count(messages) <= u64::MAX ==> counts_sum(rows) == message_count(messages)
}

proof fn message_updates_row(messages: Seq<Seq<u8>>, rows: Seq<RowModel>, kind: Seq<char>, at: int)
    requires
        messages.len() > 0,
        is_kind(messages.last(), kind),
        rows_sum_up(messages.drop_last(), rows),
        0 <= at < rows.len(),
        rows[at].kind == kind,
    ensures
        ({
            let row = RowModel {
                kind,
                detail: bytes_text(messages.last()),
                count: if rows[at].count < u64::MAX {
                    (rows[at].count + 1) as u64
                } else {
                    rows[at].count
                },
            };
            rows_sum_up(messages, rows.update(at, row))
        }),
{
    let rest = messages.drop_last();
    let last = messages.len() - 1;
    let kinds = row_kinds(rows);
    let row = RowModel {
        kind,
        detail: bytes_text(messages.last()),
        count: if rows[at].count < u64::MAX {
            (rows[at].count + 1) as u64
        } else {
            rows[at].count
        },
    };
    let after = rows.update(at, row);
    assert(forall|k: int| 0 <= k < rest.len() ==> #[trigger] messages[k] == rest[k]);
    assert(last_of_kind(messages, kind, last));
    assert(kind_count(messages, kind) == kind_count(rest, kind) + 1);
    kinds_are_messages(rest, kind);
    assert(row_sums_up(rest, rows[at]));
    assert(last_of_kind(messages, row.kind, last) && row.detail == bytes_text(messages[last]));
    assert(row_sums_up(messages, row));
    updating_adds(rows, at, row);
    assert(row_kinds(after) =~= kinds);
    assert(kinds[at] == kind);
    assert forall|i: int| 0 <= i < after.len() implies row_sums_up(messages, #[trigger] after[i]) by {
        if i != at {
            assert(kinds[i] == rows[i].kind);
            if i < at {
                text_order_is_total(kinds[i], kinds[at]);
            } else {
                text_order_is_total(kinds[at], kinds[i]);
            }
            assert(row_sums_up(rest, rows[i]));
            other_kinds_stay(messages, rows[i]);
        }
    }
    assert forall|j: int| 0 <= j < messages.len() && (#[trigger] messages[j]).len()
        > 0 implies kinds.contains(kind_text(messages[j])) by {
        if j < last {
            assert(rest[j].len() > 0);
        }
    }
}

proof fn message_opens_row(messages: Seq<Seq<u8>>, rows: Seq<RowModel>, kind: Seq<char>, at: int)
    requires
        messages.len() > 0,
        is_kind(messages.last(), kind),
        rows_sum_up(messages.drop_last(), rows),
        0 <= at <= rows.len(),
        keys_sorted(row_kinds(rows).insert(at, kind)),
    ensures
        rows_sum_up(
            messages,
            rows.insert(at, RowModel { kind, detail: bytes_text(messages.last()), count: 1 }),
        ),
{
    let rest = messages.drop_last();
    let last = messages.len() - 1;
    let kinds = row_kinds(rows);
    let wide = kinds.insert(at, kind);
    let row = RowModel { kind, detail: bytes_text(messages.last()), count: 1 };
    let after = rows.insert(at, row);
    assert(forall|k: int| 0 <= k < rest.len() ==> #[trigger] messages[k] == rest[k]);
    assert(last_of_kind(messages, kind, last));
    assert(row_kinds(after) =~= wide);
    assert(wide[at] == kind);
    inserting_adds(rows, at, row);
    assert forall|i: int| 0 <= i < kinds.len() implies #[trigger] kinds[i] != kind by {
        if i < at {
            assert(wide[i] == kinds[i]);
            text_order_is_total(wide[i], wide[at]);
        } else {
            assert(wide[i + 1] == kinds[i]);
            text_order_is_total(wide[at], wide[i + 1]);
        }
    }
    if kind_count(rest, kind) > 0 {
        let j = kind_seen(rest, kind);
        assert(rest[j].len() > 0);
        assert(kinds.contains(kind));
    }
    assert(kind_count(messages, kind) == 1);
    assert(last_of_kind(messages, row.kind, last) && row.detail == bytes_text(messages[last]));
    assert(row_sums_up(messages, row));
    assert forall|i: int| 0 <= i < after.len() implies row_sums_up(messages, #[trigger] after[i]) by {
        if i != at {
            let old_i = if i < at {
                i
            } else {
                i - 1
            };
            assert(after[i] == rows[old_i]);
            assert(kinds[old_i] == rows[old_i].kind);
            assert(row_sums_up(rest, rows[old_i]));
            other_kinds_stay(messages, rows[old_i]);
        }
    }
    assert forall|j: int| 0 <= j < messages.len() && (#[trigger] messages[j]).len()
        > 0 implies wide.contains(kind_text(messages[j])) by {
        if j < last {
            assert(rest[j].len() > 0);
            let i = choose|i: int| 0 <= i < kinds.len() && kinds[i] == kind_text(rest[j]);
            if i < at {
                assert(wide[i] == kinds[i]);
            } else {
                assert(wide[i + 1] == kinds[i]);
            }
        }
    }
}

/// Whatever comes in, an enabled monitor's rows sum it up.
pub proof fn rows_sum_up_messages(messages: Seq<Seq<u8>>)
    ensures
        rows_sum_up(messages, rows_after(messages)),
    decreases messages.len(),
{
    if messages.len() > 0 {
        let rest = messages.drop_last();
        let bytes = messages.last();
        let rows = rows_after(rest);
        rows_sum_up_messages(rest);
        if bytes.len() > 0 {
            let kind = kind_text(bytes);
            let kinds = row_kinds(rows);
            let at = key_place(kinds, kind, rows.len()) as int;
            placing_keeps_keys_sorted(kinds, kind);
            if at < rows.len() && rows[at].kind == kind {
                message_updates_row(messages, rows, kind, at);
            } else {
                message_opens_row(messages, rows, kind, at);
            }
        } else {
            assert(forall|k: int| 0 <= k < rest.len() ==> #[trigger] messages[k] == rest[k]);
            assert forall|i: int| 0 <= i < rows.len() implies row_sums_up(
                messages,
                #[trigger] rows[i],
            ) by {
                assert(row_sums_up(rest, rows[i]));
                other_kinds_stay(messages, rows[i]);
            }
        }
    }
}

} // verus!
