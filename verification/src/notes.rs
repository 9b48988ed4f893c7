//! Note names and note ranges.

use vstd::prelude::*;

use crate::text::{
    all_digits, ascii_space, chars_of, dec, digit, digit_value, digits_value, is_ascii_space,
    is_digit, lower, part, push_dec, text_of, trim, trimmed,
};

verus! {

// ---------------------------------------------------------------------------
// Note names
// ---------------------------------------------------------------------------

/// Why a note name is not one.
#[derive(Clone, Copy, Debug, PartialEq, Eq, Structural)]
pub enum NoteError {
    /// There is no text.
    Empty,
    /// The first byte, shown as a character, is not a note letter.
    Letter(char),
    /// What follows the letter and accidental is not an octave number.
    Octave,
    /// The note lies outside the MIDI range 0..=127.
    OutOfRange,
}

/// The letter and accidental of a pitch class, in sharps.
pub open spec fn class_text(class: int) -> Seq<char> {
    if class == 0 {
        seq!['C']
    } else if class == 1 {
        seq!['C', '#']
    } else if class == 2 {
        seq!['D']
    } else if class == 3 {
        seq!['D', '#']
    } else if class == 4 {
        seq!['E']
    } else if class == 5 {
        seq!['F']
    } else if class == 6 {
        seq!['F', '#']
    } else if class == 7 {
        seq!['G']
    } else if class == 8 {
        seq!['G', '#']
    } else if class == 9 {
        seq!['A']
    } else if class == 10 {
        seq!['A', '#']
    } else {
        seq!['B']
    }
}

/// An octave number in decimal.
pub open spec fn octave_text(octave: int) -> Seq<char> {
    if octave < 0 {
        seq!['-'] + dec((-octave) as nat)
    } else {
        dec(octave as nat)
    }
}

/// The name of a note: its pitch class and its octave, where note 60 is C4.
pub open spec fn note_text(note: u8) -> Seq<char> {
    class_text((note % 12) as int) + octave_text(note / 12 - 1)
}

/// Convert a MIDI note number to its name (60 is "C4").
pub fn note_name(note: u8) -> (name: String)
    ensures
        name@ == note_text(note),
{
    let class: u8 = note % 12;
    let mut name: String = String::new();
    if class < 2 {
        name.push('C');
    } else if class < 4 {
        name.push('D');
    } else if class == 4 {
        name.push('E');
    } else if class < 7 {
        name.push('F');
    } else if class < 9 {
        name.push('G');
    } else if class < 11 {
        name.push('A');
    } else {
        name.push('B');
    }
    if class == 1 || class == 3 || class == 6 || class == 8 || class == 10 {
        name.push('#');
    }
    assert(name@ =~= class_text(class as int));
    let octave: u8 = note / 12;
    if octave == 0 {
        name.push('-');
        push_dec(&mut name, 1);
    } else {
        push_dec(&mut name, octave as u64 - 1);
    }
    assert(name@ =~= note_text(note));
    name
}

/// Semitones of a note letter above C, in either case.
pub open spec fn letter_semitone(c: char) -> Option<int> {
    let l = lower(c);
    if l == 'c' {
        Some(0)
    } else if l == 'd' {
        Some(2)
    } else if l == 'e' {
        Some(4)
    } else if l == 'f' {
        Some(5)
    } else if l == 'g' {
        Some(7)
    } else if l == 'a' {
        Some(9)
    } else if l == 'b' {
        Some(11)
    } else {
        None
    }
}

/// The first byte of a character's UTF-8 form, as a character.
pub open spec fn lead_byte(c: char) -> char {
    let n = c as int;
    if n < 0x80 {
        c
    } else if n < 0x800 {
        (0xC0 + n / 0x40) as char
    } else if n < 0x1_0000 {
        (0xE0 + n / 0x1000) as char
    } else {
        (0xF0 + n / 0x4_0000) as char
    }
}

/// An octave number: an optional sign and at least one digit, between -128 and
/// 127.
pub open spec fn octave_of(s: Seq<char>) -> Option<int> {
    let signed = s.len() > 0 && (s[0] == '-' || s[0] == '+');
    let digits = if signed {
        s.drop_first()
    } else {
        s
    };
    let v = digits_value(digits);
    let n = if signed && s[0] == '-' {
        -v
    } else {
        v as int
    };
    if digits.len() > 0 && all_digits(digits) && -128 <= n <= 127 {
        Some(n)
    } else {
        None
    }
}

/// How many characters the accidental takes up, and its semitones.
pub open spec fn accidental(s: Seq<char>) -> (int, int) {
    if s.len() > 1 && s[1] == '#' {
        (1, 1)
    } else if s.len() > 1 && s[1] == 'b' {
        (1, -1)
    } else {
        (0, 0)
    }
}

/// The note that a name stands for: letter, optional accidental, octave.
pub open spec fn note_of(s: Seq<char>) -> Result<u8, NoteError> {
    if s.len() == 0 {
        Err(NoteError::Empty)
    } else {
        match letter_semitone(s[0]) {
            None => Err(NoteError::Letter(lead_byte(s[0]))),
            Some(semitone) => {
                let (width, shift) = accidental(s);
                match octave_of(s.skip(1 + width)) {
                    None => Err(NoteError::Octave),
                    Some(octave) => {
                        let note = (octave + 1) * 12 + semitone + shift;
                        if 0 <= note <= 127 {
                            Ok(note as u8)
                        } else {
                            Err(NoteError::OutOfRange)
                        }
                    },
                }
            },
        }
    }
}

fn semitone_of(c: char) -> (r: Option<i16>)
    ensures
        match r {
            Some(n) => letter_semitone(c) == Some(n as int),
            None => letter_semitone(c) is None,
        },
{
    match c {
        'C' | 'c' => Some(0),
        'D' | 'd' => Some(2),
        'E' | 'e' => Some(4),
        'F' | 'f' => Some(5),
        'G' | 'g' => Some(7),
        'A' | 'a' => Some(9),
        'B' | 'b' => Some(11),
        _ => None,
    }
}

fn lead_byte_of(c: char) -> (r: char)
    ensures
        r == lead_byte(c),
{
    let n: u32 = c as u32;
    if n < 0x80 {
        c
    } else if n < 0x800 {
        (0xC0 + n / 0x40) as u8 as char
    } else if n < 0x1_0000 {
        (0xE0 + n / 0x1000) as u8 as char
    } else {
        (0xF0 + n / 0x4_0000) as u8 as char
    }
}

/// Read an octave number from position `from` on.
fn read_octave(chars: &Vec<char>, from: usize) -> (r: Option<i16>)
    requires
        from <= chars.len(),
    ensures
        match r {
            Some(n) => octave_of(chars@.skip(from as int)) == Some(n as int),
            None => octave_of(chars@.skip(from as int)) is None,
        },
{
    let ghost s = chars@.skip(from as int);
    let mut i: usize = from;
    let mut negative: bool = false;
    if i < chars.len() && (chars[i] == '-' || chars[i] == '+') {
        negative = chars[i] == '-';
        i += 1;
        assert(s.drop_first() =~= chars@.skip(i as int));
    }
    let ghost digits = chars@.skip(i as int);
    let start: usize = i;
    // Values above this are out of range however they go on.
    let cap: u32 = 1000;
    let mut value: u32 = 0;
    while i < chars.len()
        invariant
            start <= i <= chars.len(),
            from <= chars.len(),
            digits == chars@.skip(start as int),
            s == chars@.skip(from as int),
            digits == (if s.len() > 0 && (s[0] == '-' || s[0] == '+') {
                s.drop_first()
            } else {
                s
            }),
            cap == 1000,
            value <= cap,
            all_digits(digits.take(i - start)),
            value < cap ==> value == digits_value(digits.take(i - start)),
            value == cap ==> digits_value(digits.take(i - start)) >= cap,
        decreases chars.len() - i,
    {
        let c: char = chars[i];
        let ghost next = digits.take(i + 1 - start);
        assert(next.drop_last() =~= digits.take(i - start));
        assert(next.last() == c);
        if !digit(c) {
            assert(digits[i - start] == c);
            return None;
        }
        let d: u32 = c as u32 - 48;
        assert(digit_value(c) == d);
        let v: u32 = value * 10 + d;
        value = if v < cap {
            v
        } else {
            cap
        };
        assert(all_digits(next)) by {
            assert forall|k: int| 0 <= k < next.len() implies is_digit(#[trigger] next[k]) by {
                if k < i - start {
                    assert(next[k] == digits.take(i - start)[k]);
                }
            }
        }
        i += 1;
    }
    assert(digits.take(digits.len() as int) =~= digits);
    if i == start {
        None
    } else if negative {
        if value <= 128 {
            Some(-(value as i16))
        } else {
            None
        }
    } else if value <= 127 {
        Some(value as i16)
    } else {
        None
    }
}

/// The note that the characters of a name stand for.
pub fn parse_note(chars: &Vec<char>) -> (r: Result<u8, NoteError>)
    ensures
        r == note_of(chars@),
{
    if chars.len() == 0 {
        return Err(NoteError::Empty);
    }
    let semitone: i16 = match semitone_of(chars[0]) {
        Some(n) => n,
        None => {
            return Err(NoteError::Letter(lead_byte_of(chars[0])));
        },
    };
    let mut from: usize = 1;
    let mut shift: i16 = 0;
    if chars.len() > 1 && chars[1] == '#' {
        from = 2;
        shift = 1;
    } else if chars.len() > 1 && chars[1] == 'b' {
        from = 2;
        shift = -1;
    }
    let octave: i16 = match read_octave(chars, from) {
        Some(n) => n,
        None => {
            return Err(NoteError::Octave);
        },
    };
    let note: i16 = (octave + 1) * 12 + semitone + shift;
    if 0 <= note && note <= 127 {
        Ok(note as u8)
    } else {
        Err(NoteError::OutOfRange)
    }
}

/// Parse a note name like "C4", "G#3" or "Bb5" into a MIDI note number: C4 is
/// 60 and A0 is 21.
pub fn parse_note_name(name: &str) -> (r: Result<u8, NoteError>)
    ensures
        r == note_of(name@),
{
    let chars = chars_of(name);
    parse_note(&chars)
}

// ---------------------------------------------------------------------------
// Note ranges
// ---------------------------------------------------------------------------

/// Why a note range is not one.
#[derive(Clone, Copy, Debug, PartialEq, Eq, Structural)]
pub enum RangeError {
    /// There is no separator between the bounds.
    Format,
    /// Neither bound is given.
    NoBound,
    /// The low bound is not a note.
    Low(NoteError),
    /// The high bound is not a note.
    High(NoteError),
    /// The bounds are in the wrong order.
    Order { low: u8, high: u8 },
}

/// The first position from `i` on that does not hold a digit.
pub open spec fn skip_digits(s: Seq<char>, i: int) -> int
    decreases s.len() - i,
{
    if 0 <= i < s.len() && is_digit(s[i]) {
        skip_digits(s, i + 1)
    } else {
        i
    }
}

/// The first position from `i` on that does not hold ASCII whitespace.
pub open spec fn skip_spaces(s: Seq<char>, i: int) -> int
    decreases s.len() - i,
{
    if 0 <= i < s.len() && is_ascii_space(s[i]) {
        skip_spaces(s, i + 1)
    } else {
        i
    }
}

/// Where the '-' between the bounds stands. A '-' right after the low bound's
/// letter or accidental and before a digit is an octave sign instead.
pub open spec fn separator(s: Seq<char>) -> Option<int> {
    if s.len() == 0 || s[0] as int >= 0x80 {
        None
    } else if s[0] == '-' {
        Some(0)
    } else {
        let name = if s.len() > 1 && (s[1] == '#' || s[1] == 'b') {
            2int
        } else {
            1int
        };
        let octave = if name + 1 < s.len() && s[name] == '-' && is_digit(s[name + 1]) {
            name + 1
        } else {
            name
        };
        let end = skip_spaces(s, skip_digits(s, octave));
        if end < s.len() && s[end] == '-' {
            Some(end)
        } else {
            None
        }
    }
}

/// A bound, or `open` where it is left out.
pub open spec fn bound_of(s: Seq<char>, open: u8) -> Result<u8, NoteError> {
    if s.len() == 0 {
        Ok(open)
    } else {
        note_of(s)
    }
}

/// The range that a text stands for.
pub open spec fn range_of(text: Seq<char>) -> Result<(u8, u8), RangeError> {
    let s = trimmed(text);
    match separator(s) {
        None => Err(RangeError::Format),
        Some(at) => {
            let low = trimmed(s.take(at));
            let high = trimmed(s.skip(at + 1));
            if low.len() == 0 && high.len() == 0 {
                Err(RangeError::NoBound)
            } else {
                match (bound_of(low, 0), bound_of(high, 127)) {
                    (Err(e), _) => Err(RangeError::Low(e)),
                    (_, Err(e)) => Err(RangeError::High(e)),
                    (Ok(lo), Ok(hi)) => if lo > hi {
                        Err(RangeError::Order { low: lo, high: hi })
                    } else {
                        Ok((lo, hi))
                    },
                }
            }
        },
    }
}

fn ascii(c: char) -> (r: bool)
    ensures
        r == ((c as int) < 0x80),
{
    (c as u32) < 0x80
}

/// Find the separator between the bounds of a range.
pub fn split_range_bounds(s: &Vec<char>) -> (at: Option<usize>)
    ensures
        match at {
            Some(i) => i < s.len() && separator(s@) == Some(i as int),
            None => separator(s@) is None,
        },
{
    if s.len() == 0 {
        return None;
    }
    if !ascii(s[0]) {
        return None;
    }
    if s[0] == '-' {
        return Some(0);
    }
    let mut i: usize = 1;
    if s.len() > 1 && (s[1] == '#' || s[1] == 'b') {
        i = 2;
    }
    if s.len() > 2 && i < s.len() - 1 && s[i] == '-' && digit(s[i + 1]) {
        i = i + 1;
    }
    let ghost octave = i as int;
    while i < s.len() && digit(s[i])
        invariant
            i <= s.len(),
            skip_digits(s@, octave) == skip_digits(s@, i as int),
        decreases s.len() - i,
    {
        i += 1;
    }
    let ghost spaces = i as int;
    while i < s.len() && ascii_space(s[i])
        invariant
            i <= s.len(),
            skip_spaces(s@, spaces) == skip_spaces(s@, i as int),
        decreases s.len() - i,
    {
        i += 1;
    }
    if i < s.len() && s[i] == '-' {
        Some(i)
    } else {
        None
    }
}

fn parse_bound(s: &Vec<char>, open: u8) -> (r: Result<u8, NoteError>)
    ensures
        r == bound_of(s@, open),
{
    if s.len() == 0 {
        Ok(open)
    } else {
        parse_note(s)
    }
}

/// Parse a note range like "C0-B3" into inclusive (low, high) note numbers.
/// Either bound may be left out: "C4-" is C4 and up, "-C4" is up to C4.
pub fn parse_range(s: &str) -> (r: Result<(u8, u8), RangeError>)
    ensures
        r == range_of(s@),
{
    let all = chars_of(s);
    let chars = trim(&all);
    let at: usize = match split_range_bounds(&chars) {
        Some(i) => i,
        None => {
            return Err(RangeError::Format);
        },
    };
    let left = part(&chars, 0, at);
    let right = part(&chars, at + 1, chars.len());
    assert(left@ =~= chars@.take(at as int));
    assert(right@ =~= chars@.skip(at + 1));
    let low_text = trim(&left);
    let high_text = trim(&right);
    if low_text.len() == 0 && high_text.len() == 0 {
        return Err(RangeError::NoBound);
    }
    match parse_bound(&low_text, 0) {
        Err(e) => Err(RangeError::Low(e)),
        Ok(low) => match parse_bound(&high_text, 127) {
            Err(e) => Err(RangeError::High(e)),
            Ok(high) => if low > high {
                Err(RangeError::Order { low, high })
            } else {
                Ok((low, high))
            },
        },
    }
}

/// A range as text, with open ends kept open.
pub open spec fn range_text(range: (u8, u8)) -> Seq<char> {
    if range.0 == 0 {
        seq!['-'] + note_text(range.1)
    } else if range.1 == 127 {
        note_text(range.0) + seq!['-']
    } else {
        note_text(range.0) + seq!['-'] + note_text(range.1)
    }
}

/// Format a range as text that `parse_range` accepts: "-B3", "C4-" or "C0-B3".
pub fn format_range(range: (u8, u8)) -> (text: String)
    ensures
        text@ == range_text(range),
{
    let (low, high) = range;
    let mut text: String = String::new();
    if low != 0 {
        text.append(note_name(low).as_str());
    }
    text.push('-');
    if low == 0 || high != 127 {
        text.append(note_name(high).as_str());
    }
    assert(text@ =~= range_text(range));
    text
}

// ---------------------------------------------------------------------------
// Messages
// ---------------------------------------------------------------------------

/// What is said of a note name that was not understood.
pub open spec fn note_message(e: NoteError, name: Seq<char>) -> Seq<char> {
    match e {
        NoteError::Empty => "empty note name"@,
        NoteError::Letter(c) => ("invalid note letter '"@).push(c) + "'"@,
        NoteError::Octave => "invalid octave in note name '"@ + name + "'"@,
        NoteError::OutOfRange => "note '"@ + name + "' is out of MIDI range (0-127)"@,
    }
}

/// The texts of the two bounds of a range; empty where there is no separator.
pub open spec fn bound_texts(text: Seq<char>) -> (Seq<char>, Seq<char>) {
    let s = trimmed(text);
    match separator(s) {
        None => (Seq::empty(), Seq::empty()),
        Some(at) => (trimmed(s.take(at)), trimmed(s.skip(at + 1))),
    }
}

/// What is said of a range that was not understood.
pub open spec fn range_message(e: RangeError, text: Seq<char>) -> Seq<char> {
    match e {
        RangeError::Format => "invalid range format '"@ + text
            + "', expected 'NOTE-NOTE' (e.g. 'C0-B3'); open-ended 'C4-' or '-C4' are also allowed"@,
        RangeError::NoBound => "invalid range '"@ + text + "': at least one bound is required"@,
        RangeError::Low(n) => note_message(n, bound_texts(text).0),
        RangeError::High(n) => note_message(n, bound_texts(text).1),
        RangeError::Order { low, high } => "range '"@ + text + "' has low ("@ + dec(low as nat)
            + ") > high ("@ + dec(high as nat) + ")"@,
    }
}

impl NoteError {
    /// The message for the user; `name` is the text that was read.
    pub fn message(&self, name: &str) -> (text: String)
        ensures
            text@ == note_message(*self, name@),
    {
        match *self {
            NoteError::Empty => "empty note name".to_owned(),
            NoteError::Letter(c) => {
                let mut text: String = "invalid note letter '".to_owned();
                text.push(c);
                text.append("'");
                text
            },
            NoteError::Octave => "invalid octave in note name '".to_owned().concat(name).concat(
                "'",
            ),
            NoteError::OutOfRange => "note '".to_owned().concat(name).concat(
                "' is out of MIDI range (0-127)",
            ),
        }
    }
}

impl RangeError {
    /// The message for the user; `range` is the text that was read.
    pub fn message(&self, range: &str) -> (text: String)
        ensures
            text@ == range_message(*self, range@),
    {
        match *self {
            RangeError::Format => "invalid range format '".to_owned().concat(range).concat(
                "', expected 'NOTE-NOTE' (e.g. 'C0-B3'); open-ended 'C4-' or '-C4' are also allowed",
            ),
            RangeError::NoBound => "invalid range '".to_owned().concat(range).concat(
                "': at least one bound is required",
            ),
            RangeError::Low(e) => e.message(bounds(range).0.as_str()),
            RangeError::High(e) => e.message(bounds(range).1.as_str()),
            RangeError::Order { low, high } => {
                let mut text: String = "range '".to_owned().concat(range).concat("' has low (");
                push_dec(&mut text, low as u64);
                text.append(") > high (");
                push_dec(&mut text, high as u64);
                text.append(")");
                text
            },
        }
    }
}

fn bounds(range: &str) -> (texts: (String, String))
    ensures
        (texts.0@, texts.1@) == bound_texts(range@),
{
    let all = chars_of(range);
    let chars = trim(&all);
    match split_range_bounds(&chars) {
        None => (String::new(), String::new()),
        Some(at) => {
            let left = part(&chars, 0, at);
            let right = part(&chars, at + 1, chars.len());
            assert(left@ =~= chars@.take(at as int));
            assert(right@ =~= chars@.skip(at + 1));
            let low = trim(&left);
            let high = trim(&right);
            (text_of(low.as_slice()), text_of(high.as_slice()))
        },
    }
}

// ---------------------------------------------------------------------------
// Laws
// ---------------------------------------------------------------------------

/// The text of an octave reads back as that octave: a sign and one digit for the
/// lowest, digits alone for the others.
pub proof fn octave_reads_back(note: u8)
    ensures
        octave_of(octave_text(note / 12 - 1)) == Some(note / 12 - 1),
        1 <= octave_text(note / 12 - 1).len() <= 2,
        note < 12 ==> octave_text(note / 12 - 1) == seq!['-', '1'],
        note >= 12 ==> all_digits(octave_text(note / 12 - 1)),
{
    let octave = note / 12 - 1;
    let s = octave_text(octave);
    reveal_with_fuel(digits_value, 3);
    reveal_with_fuel(dec, 3);
    if octave < 0 {
        assert(dec(1) =~= seq!['1']);
        assert(s =~= seq!['-', '1']);
        assert(s.drop_first() =~= seq!['1']);
        assert(seq!['1'].drop_last() =~= Seq::<char>::empty());
        assert(digits_value(seq!['1']) == 1);
    } else {
        crate::text::dec_reads_back(octave as nat);
        assert(1 <= s.len() <= 2);
    }
}

/// The parts of a note name.
pub proof fn note_text_parts(note: u8)
    ensures
        ({
            let s = note_text(note);
            let class = class_text((note % 12) as int);
            &&& 1 <= class.len() <= 2
            &&& s.len() == class.len() + octave_text(note / 12 - 1).len()
            &&& s[0] == class[0]
            &&& letter_semitone(class[0]) is Some
            &&& (s[0] as int) < 0x80
            &&& class.len() == 2 ==> s[1] == '#'
            &&& accidental(s).0 == class.len() - 1
            &&& letter_semitone(s[0])->0 + accidental(s).1 == note % 12
            &&& s.skip(class.len() as int) == octave_text(note / 12 - 1)
            &&& is_digit(s.last())
        }),
{
    let s = note_text(note);
    let class = class_text((note % 12) as int);
    let octave = octave_text(note / 12 - 1);
    octave_reads_back(note);
    assert(s.skip(class.len() as int) =~= octave);
    assert(s.last() == octave.last());
    if class.len() == 1 {
        assert(s[1] == octave[0]);
    }
}

/// The name of a note reads back as that note. The name of a number above the
/// MIDI range is rejected as out of range.
pub proof fn note_names_read_back(note: u8)
    ensures
        note_of(note_text(note)) == (if note <= 127 {
            Ok::<u8, NoteError>(note)
        } else {
            Err(NoteError::OutOfRange)
        }),
{
    note_text_parts(note);
    octave_reads_back(note);
}

proof fn plain_ends_stay(s: Seq<char>)
    requires
        s.len() > 0 ==> !crate::text::is_space(s[0]) && !crate::text::is_space(s.last()),
    ensures
        trimmed(s) == s,
{
}

/// Where the separator of a formatted range stands.
proof fn separator_follows_low(low: u8, tail: Seq<char>)
    ensures
        separator(note_text(low) + seq!['-'] + tail) == Some(note_text(low).len() as int),
{
    note_text_parts(low);
    octave_reads_back(low);
    let name = note_text(low);
    let s = name + seq!['-'] + tail;
    let class = class_text((low % 12) as int).len() as int;
    let end = name.len() as int;
    assert(forall|i: int| 0 <= i < end ==> s[i] == name[i]);
    assert(s[end] == '-');
    assert(forall|i: int| class <= i < end ==> name[i] == octave_text(low / 12 - 1)[i - class]) by {
        assert(name.skip(class) == octave_text(low / 12 - 1));
        assert forall|i: int| class <= i < end implies name[i] == octave_text(low / 12 - 1)[i
            - class] by {
            assert(name.skip(class)[i - class] == name[i]);
        }
    }
    reveal_with_fuel(skip_digits, 3);
    reveal_with_fuel(skip_spaces, 2);
}

/// A formatted range reads back as that range, open ends included. The text of a
/// pair that is no range is rejected: a bound above the MIDI range as such, the
/// low one first, and bounds that are the wrong way round for their order.
pub proof fn ranges_read_back(low: u8, high: u8)
    ensures
        range_of(range_text((low, high))) == (if low > 127 {
            Err::<(u8, u8), RangeError>(RangeError::Low(NoteError::OutOfRange))
        } else if high > 127 {
            Err(RangeError::High(NoteError::OutOfRange))
        } else if low > high {
            Err(RangeError::Order { low, high })
        } else {
            Ok((low, high))
        }),
{
    let s = range_text((low, high));
    note_text_parts(low);
    note_text_parts(high);
    note_names_read_back(low);
    note_names_read_back(high);
    plain_ends_stay(note_text(low));
    plain_ends_stay(note_text(high));
    plain_ends_stay(Seq::empty());
    if low == 0 {
        assert(s.last() == note_text(high).last());
        plain_ends_stay(s);
        assert(s.take(0) =~= Seq::empty());
        assert(s.skip(1) =~= note_text(high));
    } else if high == 127 {
        plain_ends_stay(s);
        assert(s =~= note_text(low) + seq!['-'] + Seq::empty());
        separator_follows_low(low, Seq::empty());
        let at = note_text(low).len() as int;
        assert(s.take(at) =~= note_text(low));
        assert(s.skip(at + 1) =~= Seq::empty());
    } else {
        assert(s.last() == note_text(high).last());
        plain_ends_stay(s);
        separator_follows_low(low, note_text(high));
        let at = note_text(low).len() as int;
        assert(s.take(at) =~= note_text(low));
        assert(s.skip(at + 1) =~= note_text(high));
    }
}

} // verus!
