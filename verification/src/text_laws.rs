//! How texts are compared and searched.

use vstd::prelude::*;

use crate::midi::MidiManager;
use crate::text::{holds, part_at, text_before};

verus! {

/// Of two texts the one comes first that has the lower character where they
/// first differ, or that ends first if they do not.
pub proof fn the_first_difference_decides(
    front: Seq<char>,
    a: Seq<char>,
    b: Seq<char>,
)
    requires
        a.len() > 0,
        b.len() > 0,
        a[0] != b[0],
    ensures
        text_before(front + a, front + b) == (a[0] < b[0]),
        text_before(front, front + a),
        !text_before(front + a, front),
        !text_before(front, front),
    decreases front.len(),
{
    if front.len() > 0 {
        let rest = front.drop_first();
        the_first_difference_decides(rest, a, b);
        assert((front + a).drop_first() =~= rest + a);
        assert((front + b).drop_first() =~= rest + b);
    } else {
        assert(front + a =~= a);
        assert(front + b =~= b);
    }
}

/// A text holds another exactly if it can be cut into something, the other, and
/// something.
pub proof fn parts_are_found(s: Seq<char>, needle: Seq<char>, front: Seq<char>, back: Seq<char>)
    ensures
        s == front + needle + back ==> holds(s, needle),
        holds(s, needle) ==> exists|a: Seq<char>, b: Seq<char>|
            s == #[trigger] (a + needle + b),
{
    if s == front + needle + back {
        let at = front.len() as int;
        assert(s.subrange(at, at + needle.len()) =~= needle);
        assert(part_at(s, needle, at));
    }
    if holds(s, needle) {
        let at = choose|at: int| part_at(s, needle, at);
        let (a, b) = (s.take(at), s.skip(at + needle.len()));
        assert(s =~= a + needle + b);
    }
}

/// A port is opened that is not open yet, if its name holds what is asked for; if
/// nothing is asked for, any name will do.
pub proof fn ports_are_opened_once(m: MidiManager, name: Seq<char>, front: Seq<char>, back: Seq<char>)
    ensures
        m.names().contains(name) ==> !m.eligible(name),
        !m.names().contains(name) && m.filter() is None ==> m.eligible(name),
        !m.names().contains(name) && m.filter() is Some && name == front + m.filter()->0 + back
            ==> m.eligible(name),
        m.eligible(name) && m.filter() is Some ==> exists|a: Seq<char>, b: Seq<char>|
            name == #[trigger] (a + m.filter()->0 + b),
{
    if let Some(part) = m.filter() {
        parts_are_found(name, part, front, back);
    }
}

} // verus!
