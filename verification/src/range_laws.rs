//! How ranges of notes are read.

use vstd::prelude::*;

use crate::notes::{
    class_text, note_names_read_back, note_text, note_text_parts, octave_reads_back, octave_text,
    range_of, separator, skip_digits, skip_spaces, NoteError, RangeError,
};
use crate::text::{is_ascii_space, is_space, trim_end, trim_start, trimmed};

verus! {

/// Spaces and tabs, and nothing else.
pub open spec fn blank(s: Seq<char>) -> bool {
    forall|i: int| 0 <= i < s.len() ==> (#[trigger] s[i]) == ' ' || s[i] == '\t'
}

proof fn starts_are_cut(front: Seq<char>, s: Seq<char>)
    requires
        forall|i: int| 0 <= i < front.len() ==> is_space(#[trigger] front[i]),
        s.len() > 0 ==> !is_space(s[0]),
    ensures
        trim_start(front + s) == s,
    decreases front.len(),
{
    if front.len() > 0 {
        starts_are_cut(front.drop_first(), s);
        assert((front + s).drop_first() =~= front.drop_first() + s);
    } else {
        assert(front + s =~= s);
    }
}

proof fn ends_are_cut(s: Seq<char>, back: Seq<char>)
    requires
        forall|i: int| 0 <= i < back.len() ==> is_space(#[trigger] back[i]),
        s.len() > 0 ==> !is_space(s.last()),
    ensures
        trim_end(s + back) == s,
    decreases back.len(),
{
    if back.len() > 0 {
        ends_are_cut(s, back.drop_last());
        assert((s + back).drop_last() =~= s + back.drop_last());
    } else {
        assert(s + back =~= s);
    }
}

/// Trimming takes the blanks off both ends of a text and leaves what lies
/// between them. Spaces, tabs and line ends are blanks; a character that ASCII
/// can print is none.
pub proof fn blanks_are_trimmed(front: Seq<char>, s: Seq<char>, back: Seq<char>, c: char)
    requires
        forall|i: int| 0 <= i < front.len() ==> is_space(#[trigger] front[i]),
        forall|i: int| 0 <= i < back.len() ==> is_space(#[trigger] back[i]),
        s.len() > 0,
        !is_space(s[0]),
        !is_space(s.last()),
    ensures
        trimmed(front + s + back) == s,
        trimmed(front).len() == 0,
        c == ' ' || c == '\t' || c == '\n' || c == '\r' ==> is_space(c) && is_ascii_space(c),
        '!' <= c <= '~' ==> !is_space(c) && !is_ascii_space(c),
{
    assert(front + s + back =~= front + (s + back));
    starts_are_cut(front, s + back);
    ends_are_cut(s, back);
    starts_are_cut(front, Seq::empty());
    assert(front + Seq::<char>::empty() =~= front);
}

proof fn spaces_are_skipped(s: Seq<char>, from: int, to: int)
    requires
        0 <= from <= to < s.len(),
        forall|i: int| from <= i < to ==> is_ascii_space(#[trigger] s[i]),
        !is_ascii_space(s[to]),
    ensures
        skip_spaces(s, from) == to,
    decreases to - from,
{
    if from < to {
        spaces_are_skipped(s, from + 1, to);
    }
}

proof fn separator_stands_behind(low: u8, gap: Seq<char>, tail: Seq<char>)
    requires
        blank(gap),
    ensures
        separator(note_text(low) + gap + seq!['-'] + tail) == Some(
            (note_text(low).len() + gap.len()) as int,
        ),
{
    note_text_parts(low);
    octave_reads_back(low);
    let name = note_text(low);
    let s = name + gap + seq!['-'] + tail;
    let class = class_text((low % 12) as int).len() as int;
    let end = name.len() as int;
    let at = end + gap.len();
    assert(forall|i: int| 0 <= i < end ==> s[i] == name[i]);
    assert(forall|i: int| end <= i < at ==> s[i] == gap[i - end]);
    assert(s[at] == '-');
    assert forall|i: int| class <= i < end implies name[i] == octave_text(low / 12 - 1)[i
        - class] by {
        assert(name.skip(class)[i - class] == name[i]);
    }
    assert forall|i: int| end <= i < at implies is_ascii_space(#[trigger] s[i]) by {
        assert(s[i] == gap[i - end]);
    }
    spaces_are_skipped(s, end, at);
    assert(s[end] == '-' || s[end] == ' ' || s[end] == '\t') by {
        if gap.len() > 0 {
            assert(s[end] == gap[0]);
        }
    }
    reveal_with_fuel(skip_digits, 3);
}

/// A range is read from the names of its lowest and its highest note, whatever
/// blanks stand around them. A bound above the MIDI range is refused, the low one
/// first, and so are bounds that are the wrong way round.
pub proof fn bounds_are_read_between_blanks(
    low: u8,
    high: u8,
    a: Seq<char>,
    b: Seq<char>,
    c: Seq<char>,
    d: Seq<char>,
)
    requires
        blank(a),
        blank(b),
        blank(c),
        blank(d),
    ensures
        range_of(a + note_text(low) + b + seq!['-'] + c + note_text(high) + d) == (if low > 127 {
            Err::<(u8, u8), RangeError>(RangeError::Low(NoteError::OutOfRange))
        } else if high > 127 {
            Err(RangeError::High(NoteError::OutOfRange))
        } else if low > high {
            Err(RangeError::Order { low, high })
        } else {
            Ok((low, high))
        }),
{
    let (l, h) = (note_text(low), note_text(high));
    note_text_parts(low);
    note_text_parts(high);
    note_names_read_back(low);
    note_names_read_back(high);
    let s = l + b + seq!['-'] + c + h;
    assert(a + l + b + seq!['-'] + c + h + d =~= a + s + d);
    assert(s.last() == h.last());
    assert(s[0] == l[0]);
    blanks_are_trimmed(a, s, d, ' ');
    assert(s =~= l + b + seq!['-'] + (c + h));
    separator_stands_behind(low, b, c + h);
    let at = (l.len() + b.len()) as int;
    assert(s.take(at) =~= Seq::<char>::empty() + l + b);
    assert(s.skip(at + 1) =~= c + h + Seq::<char>::empty());
    blanks_are_trimmed(Seq::empty(), l, b, ' ');
    blanks_are_trimmed(c, h, Seq::empty(), ' ');
}

proof fn open_above_is_read(note: u8, a: Seq<char>, b: Seq<char>, c: Seq<char>)
    requires
        note <= 127,
        blank(a),
        blank(b),
        blank(c),
    ensures
        range_of(a + note_text(note) + b + seq!['-'] + c) == Ok::<(u8, u8), RangeError>(
            (note, 127),
        ),
{
    let name = note_text(note);
    note_text_parts(note);
    note_names_read_back(note);
    let none = Seq::<char>::empty();
    let s = name + b + seq!['-'];
    assert(a + name + b + seq!['-'] + c =~= a + s + c);
    assert(s[0] == name[0]);
    assert(s.last() == '-');
    blanks_are_trimmed(a, s, c, ' ');
    assert(s =~= name + b + seq!['-'] + none);
    separator_stands_behind(note, b, none);
    let at = (name.len() + b.len()) as int;
    assert(s.take(at) =~= none + name + b);
    assert(s.skip(at + 1) =~= none);
    blanks_are_trimmed(none, name, b, ' ');
    assert(trimmed(none) == none);
}

proof fn open_below_is_read(note: u8, a: Seq<char>, b: Seq<char>, c: Seq<char>)
    requires
        note <= 127,
        blank(a),
        blank(b),
        blank(c),
    ensures
        range_of(a + seq!['-'] + b + note_text(note) + c) == Ok::<(u8, u8), RangeError>((0, note)),
{
    let name = note_text(note);
    note_text_parts(note);
    note_names_read_back(note);
    let none = Seq::<char>::empty();
    let s = seq!['-'] + b + name;
    assert(a + seq!['-'] + b + name + c =~= a + s + c);
    assert(s[0] == '-');
    assert(s.last() == name.last());
    blanks_are_trimmed(a, s, c, ' ');
    assert(s.take(0) =~= none);
    assert(s.skip(1) =~= b + name + none);
    blanks_are_trimmed(b, name, none, ' ');
    assert(trimmed(none) == none);
}

proof fn no_bound_is_refused(a: Seq<char>, b: Seq<char>)
    requires
        blank(a),
        blank(b),
    ensures
        range_of(a + seq!['-'] + b) == Err::<(u8, u8), RangeError>(RangeError::NoBound),
{
    let none = Seq::<char>::empty();
    let dash = seq!['-'];
    assert(dash[0] == '-' && dash.last() == '-');
    blanks_are_trimmed(a, dash, b, ' ');
    assert(dash.take(0) =~= none);
    assert(dash.skip(1) =~= none);
    assert(trimmed(none) == none);
}

/// A range may be open at one end, which then is the lowest or the highest note
/// of all. One that is open at both ends, and a text without a dash between
/// bounds, is none.
pub proof fn open_ranges_are_read(note: u8, a: Seq<char>, b: Seq<char>, c: Seq<char>)
    requires
        note <= 127,
        blank(a),
        blank(b),
        blank(c),
    ensures
        range_of(a + note_text(note) + b + seq!['-'] + c) == Ok::<(u8, u8), RangeError>(
            (note, 127),
        ),
        range_of(a + seq!['-'] + b + note_text(note) + c) == Ok::<(u8, u8), RangeError>((0, note)),
        range_of(a + seq!['-'] + b) == Err::<(u8, u8), RangeError>(RangeError::NoBound),
        range_of(Seq::empty()) == Err::<(u8, u8), RangeError>(RangeError::Format),
{
    open_above_is_read(note, a, b, c);
    open_below_is_read(note, a, b, c);
    no_bound_is_refused(a, b);
    assert(trimmed(Seq::empty()) == Seq::<char>::empty());
}

} // verus!
