//! The loop that plays a session without the user interface.

use vstd::prelude::*;

verus! {

/// How long to wait before looking for new MIDI devices, in milliseconds.
pub const POLL_INTERVAL: u128 = 1000;

/// A key that was pressed.
#[derive(Clone, Copy, Debug, PartialEq, Eq, Structural)]
pub struct KeyPress {
    /// Whether the control key is down.
    pub control: bool,
    /// The character of the key, if it has one.
    pub character: Option<char>,
}

/// What a turn of the loop does.
#[derive(Clone, Copy, Debug, PartialEq, Eq, Structural)]
pub enum Turn {
    /// Stop playing.
    Quit,
    /// Go on: hand the key to the piano, if there was one, and look for new
    /// MIDI devices if it is time.
    Continue { key: Option<KeyPress>, poll: bool },
}

/// Control with `c` or `q` quits.
pub open spec fn quits(key: KeyPress) -> bool {
    key.control && (key.character == Some('c') || key.character == Some('q'))
}

/// What a turn of the loop does, given the key that was pressed and the time
/// since it last looked for devices.
pub open spec fn turn_of(key: Option<KeyPress>, since_poll: u128) -> Turn {
    if key is Some && quits(key->0) {
        Turn::Quit
    } else {
        Turn::Continue { key, poll: since_poll >= POLL_INTERVAL }
    }
}

/// Decide what a turn of the loop does. `since_poll` is in milliseconds.
pub fn turn(key: Option<KeyPress>, since_poll: u128) -> (turn: Turn)
    ensures
        turn == turn_of(key, since_poll),
{
    if let Some(press) = key {
        if press.control {
            if let Some(c) = press.character {
                if c == 'c' || c == 'q' {
                    return Turn::Quit;
                }
            }
        }
    }
    Turn::Continue { key, poll: since_poll >= POLL_INTERVAL }
}

} // verus!
