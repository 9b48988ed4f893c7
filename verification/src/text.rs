//! Text as sequences of characters: splitting, numbers and padding.

use vstd::prelude::*;

verus! {

/// `String::push`: appends one character at the end.
pub assume_specification[ String::push ](s: &mut String, c: char)
    ensures
        final(s)@ == old(s)@.push(c),
;

/// The characters of a string.
pub fn chars_of(s: &str) -> (chars: Vec<char>)
    ensures
        chars@ == s@,
{
    let mut chars: Vec<char> = Vec::new();
    for c in it: s.chars()
        invariant
            chars@ == it.seq().take(it.index() as int),
            it.seq() == s@,
    {
        chars.push(c);
    }
    assert(s@.take(s@.len() as int) =~= s@);
    chars
}

/// A string of the given characters.
pub fn text_of(chars: &[char]) -> (s: String)
    ensures
        s@ == chars@,
{
    let mut s: String = String::new();
    let mut i: usize = 0;
    while i < chars.len()
        invariant
            i <= chars.len(),
            s@ == chars@.take(i as int),
        decreases chars.len() - i,
    {
        s.push(chars[i]);
        assert(chars@.take(i + 1) =~= chars@.take(i as int).push(chars@[i as int]));
        i += 1;
    }
    assert(chars@.take(chars@.len() as int) =~= chars@);
    s
}

/// Whether two strings hold the same characters.
pub fn same_text(a: &str, b: &str) -> (same: bool)
    ensures
        same == (a@ == b@),
{
    a.to_owned() == b.to_owned()
}

// ---------------------------------------------------------------------------
// Whitespace
// ---------------------------------------------------------------------------

/// A character with the Unicode White_Space property.
pub open spec fn is_space(c: char) -> bool {
    ||| '\u{9}' <= c <= '\u{d}'
    ||| c == ' '
    ||| c == '\u{85}'
    ||| c == '\u{a0}'
    ||| c == '\u{1680}'
    ||| '\u{2000}' <= c <= '\u{200a}'
    ||| c == '\u{2028}'
    ||| c == '\u{2029}'
    ||| c == '\u{202f}'
    ||| c == '\u{205f}'
    ||| c == '\u{3000}'
}

/// ASCII whitespace: space, tab, line feed, form feed, carriage return.
pub open spec fn is_ascii_space(c: char) -> bool {
    c == ' ' || c == '\t' || c == '\n' || c == '\u{c}' || c == '\r'
}

/// Text without its leading whitespace.
pub open spec fn trim_start(s: Seq<char>) -> Seq<char>
    decreases s.len(),
{
    if s.len() > 0 && is_space(s[0]) {
        trim_start(s.drop_first())
    } else {
        s
    }
}

/// Text without its trailing whitespace.
pub open spec fn trim_end(s: Seq<char>) -> Seq<char>
    decreases s.len(),
{
    if s.len() > 0 && is_space(s.last()) {
        trim_end(s.drop_last())
    } else {
        s
    }
}

/// Text without whitespace at either end.
pub open spec fn trimmed(s: Seq<char>) -> Seq<char> {
    trim_end(trim_start(s))
}

fn space(c: char) -> (r: bool)
    ensures
        r == is_space(c),
{
    ('\u{9}' <= c && c <= '\u{d}') || c == ' ' || c == '\u{85}' || c == '\u{a0}' || c == '\u{1680}'
        || ('\u{2000}' <= c && c <= '\u{200a}') || c == '\u{2028}' || c == '\u{2029}' || c
        == '\u{202f}' || c == '\u{205f}' || c == '\u{3000}'
}

/// Whether a character is ASCII whitespace.
pub fn ascii_space(c: char) -> (r: bool)
    ensures
        r == is_ascii_space(c),
{
    c == ' ' || c == '\t' || c == '\n' || c == '\u{c}' || c == '\r'
}

/// A copy of the characters in `[from, to)`.
pub fn part(chars: &Vec<char>, from: usize, to: usize) -> (out: Vec<char>)
    requires
        from <= to <= chars.len(),
    ensures
        out@ == chars@.subrange(from as int, to as int),
{
    let mut out: Vec<char> = Vec::new();
    let mut i: usize = from;
    while i < to
        invariant
            from <= i <= to <= chars.len(),
            out@ == chars@.subrange(from as int, i as int),
        decreases to - i,
    {
        out.push(chars[i]);
        assert(chars@.subrange(from as int, i + 1) =~= chars@.subrange(
            from as int,
            i as int,
        ).push(chars@[i as int]));
        i += 1;
    }
    out
}

/// Text without whitespace at either end.
pub fn trim(chars: &Vec<char>) -> (out: Vec<char>)
    ensures
        out@ == trimmed(chars@),
{
    let ghost all = chars@;
    let mut from: usize = 0;
    assert(all.subrange(0, all.len() as int) =~= all);
    while from < chars.len() && space(chars[from])
        invariant
            all == chars@,
            from <= chars.len(),
            trim_start(all) == trim_start(all.subrange(from as int, all.len() as int)),
        decreases chars.len() - from,
    {
        assert(all.subrange(from as int, all.len() as int).drop_first() =~= all.subrange(
            from + 1,
            all.len() as int,
        ));
        from += 1;
    }
    let ghost left = trim_start(all);
    assert(left == all.subrange(from as int, all.len() as int));
    let mut to: usize = chars.len();
    while to > from && space(chars[to - 1])
        invariant
            all == chars@,
            from <= to <= chars.len(),
            left == all.subrange(from as int, all.len() as int),
            trim_end(left) == trim_end(all.subrange(from as int, to as int)),
        decreases to,
    {
        assert(all.subrange(from as int, to as int).drop_last() =~= all.subrange(
            from as int,
            to - 1,
        ));
        to -= 1;
    }
    part(chars, from, to)
}

// ---------------------------------------------------------------------------
// Digits
// ---------------------------------------------------------------------------

/// An ASCII decimal digit.
pub open spec fn is_digit(c: char) -> bool {
    '0' <= c <= '9'
}

/// Every character is an ASCII decimal digit.
pub open spec fn all_digits(s: Seq<char>) -> bool {
    forall|i: int| 0 <= i < s.len() ==> is_digit(#[trigger] s[i])
}

/// The value of a digit.
pub open spec fn digit_value(c: char) -> nat {
    (c as nat - '0' as nat) as nat
}

/// The value of a run of digits.
pub open spec fn digits_value(s: Seq<char>) -> nat
    decreases s.len(),
{
    if s.len() == 0 {
        0
    } else {
        digits_value(s.drop_last()) * 10 + digit_value(s.last())
    }
}

/// The digit for a value below ten.
pub open spec fn digit_char(d: nat) -> char {
    (d + '0' as nat) as char
}

/// A number in decimal, without leading zeros.
pub open spec fn dec(n: nat) -> Seq<char>
    decreases n,
{
    if n < 10 {
        seq![digit_char(n)]
    } else {
        dec(n / 10).push(digit_char(n % 10))
    }
}

/// Whether a character is an ASCII decimal digit.
pub fn digit(c: char) -> (r: bool)
    ensures
        r == is_digit(c),
{
    '0' <= c && c <= '9'
}

fn digit_text(d: u64) -> (c: char)
    requires
        d < 10,
    ensures
        c == digit_char(d as nat),
{
    (d as u8 + 48) as char
}

/// Append a number in decimal.
pub fn push_dec(s: &mut String, n: u64)
    ensures
        final(s)@ == old(s)@ + dec(n as nat),
    decreases n,
{
    let ghost before = s@;
    if n >= 10 {
        push_dec(s, n / 10);
    }
    s.push(digit_text(n % 10));
    assert(s@ =~= before + dec(n as nat));
}

/// Decimal text is digits only, at least one, and stands for the number.
pub proof fn dec_reads_back(n: nat)
    ensures
        all_digits(dec(n)),
        dec(n).len() > 0,
        digits_value(dec(n)) == n,
    decreases n,
{
    if n >= 10 {
        dec_reads_back(n / 10);
        assert(dec(n).drop_last() =~= dec(n / 10));
    } else {
        assert(dec(n).drop_last() =~= Seq::empty());
        reveal_with_fuel(digits_value, 2);
    }
}

// ---------------------------------------------------------------------------
// Case and padding
// ---------------------------------------------------------------------------

/// An ASCII capital as its small letter; anything else as it is.
pub open spec fn lower(c: char) -> char {
    if 'A' <= c <= 'Z' {
        (c as nat + 32) as char
    } else {
        c
    }
}

/// ASCII capitals as small letters.
pub open spec fn lowered(s: Seq<char>) -> Seq<char> {
    Seq::new(s.len(), |i: int| lower(s[i]))
}

fn lower_char(c: char) -> (r: char)
    ensures
        r == lower(c),
{
    if 'A' <= c && c <= 'Z' {
        (c as u8 + 32) as char
    } else {
        c
    }
}

/// ASCII capitals as small letters.
pub fn to_lower(s: &str) -> (out: String)
    ensures
        out@ == lowered(s@),
{
    let chars = chars_of(s);
    let mut out: String = String::new();
    let mut i: usize = 0;
    while i < chars.len()
        invariant
            chars@ == s@,
            i <= chars.len(),
            out@ == lowered(s@).take(i as int),
        decreases chars.len() - i,
    {
        out.push(lower_char(chars[i]));
        assert(lowered(s@).take(i + 1) =~= lowered(s@).take(i as int).push(lower(s@[i as int])));
        i += 1;
    }
    assert(lowered(s@).take(s@.len() as int) =~= lowered(s@));
    out
}

/// `n` spaces.
pub open spec fn spaces(n: int) -> Seq<char> {
    Seq::new(
        if n > 0 {
            n as nat
        } else {
            0
        },
        |i: int| ' ',
    )
}

/// Text padded on the right to `width` characters; longer text stays.
pub open spec fn padded(s: Seq<char>, width: int) -> Seq<char> {
    s + spaces(width - s.len())
}

/// Append text padded on the right to `width` characters.
pub fn push_padded(out: &mut String, s: &str, width: usize)
    ensures
        final(out)@ == old(out)@ + padded(s@, width as int),
{
    let ghost before = out@;
    let len: usize = s.unicode_len();
    out.append(s);
    let mut n: usize = len;
    assert(out@ =~= before + s@ + spaces(0));
    while n < width
        invariant
            len == s@.len(),
            len <= n,
            n <= width || n == len,
            out@ == before + s@ + spaces(n - len),
        decreases width - n,
    {
        out.push(' ');
        assert(spaces(n + 1 - len) =~= spaces(n - len).push(' '));
        assert(out@ =~= before + s@ + spaces(n + 1 - len));
        n += 1;
    }
    assert(out@ =~= before + padded(s@, width as int));
}

// ---------------------------------------------------------------------------
// Parts
// ---------------------------------------------------------------------------

/// A text starts with another one at `at`.
pub open spec fn part_at(s: Seq<char>, needle: Seq<char>, at: int) -> bool {
    0 <= at && at + needle.len() <= s.len() && s.subrange(at, at + needle.len()) == needle
}

/// A text holds another one.
pub open spec fn holds(s: Seq<char>, needle: Seq<char>) -> bool {
    exists|at: int| part_at(s, needle, at)
}

/// Whether a text holds another one.
pub fn has_part(s: &str, needle: &str) -> (r: bool)
    ensures
        r == holds(s@, needle@),
{
    let text = chars_of(s);
    let wanted = chars_of(needle);
    if wanted.len() > text.len() {
        return false;
    }
    let mut at: usize = 0;
    while at <= text.len() - wanted.len()
        invariant
            wanted.len() <= text.len(),
            text@ == s@,
            wanted@ == needle@,
            at <= text.len() - wanted.len() + 1,
            forall|k: int| 0 <= k < at ==> !part_at(s@, needle@, k),
        decreases text.len() - at,
    {
        let mut i: usize = 0;
        while i < wanted.len() && text[at + i] == wanted[i]
            invariant
                wanted.len() <= text.len(),
                at <= text.len() - wanted.len(),
                i <= wanted.len(),
                forall|k: int| 0 <= k < i ==> text@[at + k] == wanted@[k],
            decreases wanted.len() - i,
        {
            i += 1;
        }
        if i == wanted.len() {
            assert(text@.subrange(at as int, at + wanted@.len()) =~= wanted@);
            assert(part_at(s@, needle@, at as int));
            return true;
        }
        proof {
            if part_at(s@, needle@, at as int) {
                assert(s@.subrange(at as int, at + needle@.len())[i as int] == s@[at + i]);
            }
        }
        if at == text.len() - wanted.len() {
            return false;
        }
        at += 1;
    }
    false
}

// ---------------------------------------------------------------------------
// Order
// ---------------------------------------------------------------------------

/// One text comes before another in dictionary order by code point, which is
/// also the order of their UTF-8 bytes.
pub open spec fn text_before(a: Seq<char>, b: Seq<char>) -> bool
    decreases a.len(),
{
    if b.len() == 0 {
        false
    } else if a.len() == 0 {
        true
    } else if a[0] != b[0] {
        a[0] < b[0]
    } else {
        text_before(a.drop_first(), b.drop_first())
    }
}

/// Whether one text comes before another in dictionary order.
pub fn precedes(a: &str, b: &str) -> (r: bool)
    ensures
        r == text_before(a@, b@),
{
    let x = chars_of(a);
    let y = chars_of(b);
    let mut i: usize = 0;
    assert(a@.skip(0) =~= a@);
    assert(b@.skip(0) =~= b@);
    while i < x.len() && i < y.len() && x[i] == y[i]
        invariant
            x@ == a@,
            y@ == b@,
            i <= x.len(),
            i <= y.len(),
            text_before(a@, b@) == text_before(a@.skip(i as int), b@.skip(i as int)),
        decreases x.len() - i,
    {
        assert(a@.skip(i as int).drop_first() =~= a@.skip(i + 1));
        assert(b@.skip(i as int).drop_first() =~= b@.skip(i + 1));
        i += 1;
    }
    if i >= y.len() {
        false
    } else if i >= x.len() {
        true
    } else {
        x[i] < y[i]
    }
}

/// Of two different texts exactly one comes first.
pub proof fn text_order_is_total(a: Seq<char>, b: Seq<char>)
    ensures
        a != b ==> text_before(a, b) != text_before(b, a),
        a == b ==> !text_before(a, b),
    decreases a.len(),
{
    if a.len() > 0 && b.len() > 0 && a[0] == b[0] {
        text_order_is_total(a.drop_first(), b.drop_first());
        if a.drop_first() == b.drop_first() {
            assert(a =~= seq![a[0]] + a.drop_first());
            assert(b =~= seq![b[0]] + b.drop_first());
        }
    } else if a.len() == 0 && b.len() == 0 {
        assert(a =~= b);
    }
}

/// What comes before a text comes before what follows it.
pub proof fn text_order_carries_on(a: Seq<char>, b: Seq<char>, c: Seq<char>)
    requires
        text_before(a, b),
        text_before(b, c),
    ensures
        text_before(a, c),
    decreases a.len(),
{
    if a.len() > 0 && a[0] == b[0] && b[0] == c[0] {
        text_order_carries_on(a.drop_first(), b.drop_first(), c.drop_first());
    }
}

// ---------------------------------------------------------------------------
// Sorted keys
// ---------------------------------------------------------------------------

/// Keys in dictionary order, each once.
pub open spec fn keys_sorted(keys: Seq<Seq<char>>) -> bool {
    forall|i: int, j: int|
        0 <= i < j < keys.len() ==> text_before(#[trigger] keys[i], #[trigger] keys[j])
}

/// Where a key belongs among the first `n`: at the first one that does not come
/// before it.
pub open spec fn key_place(keys: Seq<Seq<char>>, key: Seq<char>, n: nat) -> nat
    decreases n,
{
    if n == 0 {
        0
    } else {
        let place = key_place(keys, key, (n - 1) as nat);
        if place < n - 1 || !text_before(keys[n - 1], key) {
            place
        } else {
            n
        }
    }
}

proof fn place_is_first(keys: Seq<Seq<char>>, key: Seq<char>, n: nat)
    requires
        n <= keys.len(),
    ensures
        key_place(keys, key, n) <= n,
        forall|i: int| 0 <= i < key_place(keys, key, n) ==> text_before(#[trigger] keys[i], key),
        key_place(keys, key, n) < n ==> !text_before(keys[key_place(keys, key, n) as int], key),
    decreases n,
{
    if n > 0 {
        place_is_first(keys, key, (n - 1) as nat);
    }
}

/// A place found among the first keys is the place among all.
pub proof fn place_settled(keys: Seq<Seq<char>>, key: Seq<char>, n: nat, all: nat)
    requires
        n <= all,
        key_place(keys, key, n) < n,
    ensures
        key_place(keys, key, all) == key_place(keys, key, n),
    decreases all - n,
{
    if n < all {
        place_settled(keys, key, n + 1, all);
    }
}

/// A new key put in its place keeps the keys in order.
pub proof fn placing_keeps_keys_sorted(keys: Seq<Seq<char>>, key: Seq<char>)
    requires
        keys_sorted(keys),
    ensures
        ({
            let at = key_place(keys, key, keys.len()) as int;
            &&& at <= keys.len()
            &&& at == keys.len() || keys[at] != key ==> keys_sorted(keys.insert(at, key))
        }),
{
    place_is_first(keys, key, keys.len());
    let at = key_place(keys, key, keys.len()) as int;
    if at == keys.len() || keys[at] != key {
        if at < keys.len() {
            text_order_is_total(keys[at], key);
        }
        let after = keys.insert(at, key);
        assert forall|i: int, j: int| 0 <= i < j < after.len() implies text_before(
            #[trigger] after[i],
            #[trigger] after[j],
        ) by {
            if i == at && j > at + 1 {
                text_order_carries_on(key, keys[at], keys[j - 1]);
            }
        }
    }
}

} // verus!
