//! The time of day in front of a log line.

use vstd::prelude::*;

use crate::text::{dec, push_dec};

verus! {

/// A number with zeros in front, up to `width` digits.
pub open spec fn zero_padded(n: nat, width: int) -> Seq<char> {
    let digits = dec(n);
    Seq::new(
        if width > digits.len() {
            (width - digits.len()) as nat
        } else {
            0
        },
        |i: int| '0',
    ) + digits
}

/// A log line: the time of day, the level and the message. It ends in a
/// carriage return, for a terminal in raw mode.
pub open spec fn log_text(
    seconds: u64,
    millis: u32,
    level: Seq<char>,
    message: Seq<char>,
) -> Seq<char> {
    let time = (seconds % 86400) as nat;
    seq!['['] + zero_padded(time / 3600, 2) + seq![':'] + zero_padded(time % 3600 / 60, 2) + seq![
        ':',
    ] + zero_padded(time % 60, 2) + seq!['.'] + zero_padded(millis as nat, 3) + seq![' '] + level
        + seq![']', ' '] + message + seq!['\r', '\n']
}

proof fn dec_width(n: nat)
    ensures
        n < 10 ==> dec(n).len() == 1,
        10 <= n < 100 ==> dec(n).len() == 2,
        100 <= n ==> dec(n).len() >= 3,
    decreases n,
{
    if n >= 10 {
        dec_width(n / 10);
        if n >= 100 && n < 1000 {
            assert(10 <= n / 10 < 100);
        }
    }
}

fn push_two(s: &mut String, n: u64)
    ensures
        final(s)@ == old(s)@ + zero_padded(n as nat, 2),
{
    let ghost before = s@;
    proof {
        dec_width(n as nat);
    }
    if n < 10 {
        s.push('0');
    }
    push_dec(s, n);
    assert(s@ =~= before + zero_padded(n as nat, 2));
}

fn push_three(s: &mut String, n: u64)
    ensures
        final(s)@ == old(s)@ + zero_padded(n as nat, 3),
{
    let ghost before = s@;
    proof {
        dec_width(n as nat);
    }
    if n < 100 {
        s.push('0');
    }
    if n < 10 {
        s.push('0');
    }
    push_dec(s, n);
    assert(s@ =~= before + zero_padded(n as nat, 3));
}

/// A log line at a time since the start of the epoch.
pub fn log_line(seconds: u64, millis: u32, level: &str, message: &str) -> (line: String)
    ensures
        line@ == log_text(seconds, millis, level@, message@),
{
    let time: u64 = seconds % 86400;
    let mut line: String = String::new();
    line.push('[');
    push_two(&mut line, time / 3600);
    line.push(':');
    push_two(&mut line, time % 3600 / 60);
    line.push(':');
    push_two(&mut line, time % 60);
    line.push('.');
    push_three(&mut line, millis as u64);
    line.push(' ');
    line.append(level);
    line.push(']');
    line.push(' ');
    line.append(message);
    line.push('\r');
    line.push('\n');
    assert(line@ =~= log_text(seconds, millis, level@, message@));
    line
}

} // verus!
