//! What the host makes of messages, keys, times and paths.

use vstd::prelude::*;

use crate::cli::{task_of, Cli, Command, Task};
use crate::clock::{log_text, zero_padded};
use crate::enumerate::{
    all_lines, bar_joined, device_text, midi_lines, AudioDevice, FoundPlugin,
};
use crate::midi::{event_of, held_change, message_text, note_struck, short_kind, HeldChange};
use crate::midi_monitor::{
    bytes_joined, bytes_text, hex_byte, hex_digit, kind_text, row_text, RowModel,
};
use crate::notes::note_text;
use crate::paths::{colon_joined, extended, hex, plugin_path, settings_dir, under};
use crate::play::{turn_of, KeyPress, Turn};
use crate::text::{dec, dec_reads_back, digit_value, digits_value};

verus! {

// ---------------------------------------------------------------------------
// Messages
// ---------------------------------------------------------------------------

/// A message of three bytes or more about a note presses or lifts its key, by the
/// high half of its status and its velocity; others, and shorter ones, touch no
/// key. Only what presses a key strikes a note.
pub proof fn note_messages_move_keys(bytes: Seq<u8>)
    ensures
        ({
            let on = bytes.len() >= 3 && bytes[0] & 0xF0 == 0x90 && bytes[2] != 0;
            let off = bytes.len() >= 3 && (bytes[0] & 0xF0 == 0x80 || (bytes[0] & 0xF0 == 0x90
                && bytes[2] == 0));
            &&& on ==> held_change(bytes) == Some(HeldChange::Press(bytes[1])) && note_struck(bytes)
                == Some(bytes[1])
            &&& off ==> held_change(bytes) == Some(HeldChange::Lift(bytes[1])) && note_struck(
                bytes,
            ) is None
            &&& !on && !off ==> held_change(bytes) is None && note_struck(bytes) is None
        }),
{
}

/// A message of one to three bytes becomes an event at the start of the buffer
/// that holds its bytes in order and zeros behind them; other messages become
/// none.
pub proof fn short_messages_become_events(bytes: Seq<u8>, i: int)
    requires
        0 <= i < 3,
    ensures
        event_of(bytes) is Some <==> 1 <= bytes.len() <= 3,
        event_of(bytes) is Some ==> (event_of(bytes)->0).0 == 0,
        event_of(bytes) is Some && i < bytes.len() ==> (event_of(bytes)->0).1[i] == bytes[i],
        event_of(bytes) is Some && i >= bytes.len() ==> (event_of(bytes)->0).1[i] == 0,
{
}

/// The kinds of message with their names in the log, all of seven letters.
pub proof fn logged_kinds_are_named(status: u8)
    ensures
        status & 0xF0 == 0x80 ==> short_kind(status) == "NoteOff"@,
        status & 0xF0 == 0x90 ==> short_kind(status) == "NoteOn "@,
        status & 0xF0 == 0xA0 ==> short_kind(status) == "KeyPrs "@,
        status & 0xF0 == 0xB0 ==> short_kind(status) == "CC     "@,
        status & 0xF0 == 0xC0 ==> short_kind(status) == "PgmChg "@,
        status & 0xF0 == 0xD0 ==> short_kind(status) == "ChanPrs"@,
        status & 0xF0 == 0xE0 ==> short_kind(status) == "Bend   "@,
        status & 0xF0 == 0xF0 ==> short_kind(status) == "Other  "@,
        short_kind(status).len() == 7,
{
    reveal_strlit("NoteOn ");
    reveal_strlit("NoteOff");
    reveal_strlit("CC     ");
    reveal_strlit("Bend   ");
    reveal_strlit("ChanPrs");
    reveal_strlit("KeyPrs ");
    reveal_strlit("PgmChg ");
    reveal_strlit("Other  ");
}

/// The kinds of message that the monitor tells apart, whatever their channel. A
/// controller goes by its number.
pub proof fn monitored_kinds_are_named(bytes: Seq<u8>)
    requires
        bytes.len() > 0,
    ensures
        bytes[0] & 0xF0 == 0x80 ==> kind_text(bytes) == "Note Off"@,
        bytes[0] & 0xF0 == 0x90 ==> kind_text(bytes) == "Note On"@,
        bytes[0] & 0xF0 == 0xA0 ==> kind_text(bytes) == "Poly Aftertouch"@,
        bytes[0] & 0xF0 == 0xC0 ==> kind_text(bytes) == "Program"@,
        bytes[0] & 0xF0 == 0xD0 ==> kind_text(bytes) == "Channel Pressure"@,
        bytes[0] & 0xF0 == 0xE0 ==> kind_text(bytes) == "Pitch Bend"@,
        bytes[0] & 0xF0 == 0xB0 && bytes.len() > 1 ==> kind_text(bytes) == "CC "@ + dec(
            bytes[1] as nat,
        ),
{
}

/// System messages go by their names, and by their number if they have none. An
/// exclusive message that is too short does not tell its maker; of the longer
/// ones one maker and the universal ones have names, and the other makers go by
/// their number.
pub proof fn system_messages_are_named(bytes: Seq<u8>)
    requires
        bytes.len() > 0,
        bytes[0] >= 0xF0,
    ensures
        ({
            let (kind, status) = (kind_text(bytes), bytes[0]);
            let known = status == 0xF0 || status == 0xF8 || status == 0xFA || status == 0xFB
                || status == 0xFC || status == 0xFE || status == 0xFF;
            let roli = bytes[1] == 0x00 && bytes[2] == 0x21 && bytes[3] == 0x10;
            let universal = bytes[1] == 0x7E || bytes[1] == 0x7F;
            &&& status == 0xF8 ==> kind == "Clock"@
            &&& status == 0xFA ==> kind == "Start"@
            &&& status == 0xFB ==> kind == "Continue"@
            &&& status == 0xFC ==> kind == "Stop"@
            &&& status == 0xFE ==> kind == "Active Sensing"@
            &&& status == 0xFF ==> kind == "Reset"@
            &&& !known ==> kind == "System 0x"@ + hex_byte(status)
            &&& status == 0xF0 && bytes.len() < 4 ==> kind == "SysEx"@
            &&& status == 0xF0 && bytes.len() >= 4 && roli ==> kind == "SysEx (ROLI)"@
            &&& status == 0xF0 && bytes.len() >= 4 && universal ==> kind == "SysEx (universal)"@
            &&& status == 0xF0 && bytes.len() >= 4 && !roli && !universal ==> kind
                == "SysEx (mfr 0x"@ + hex_byte(bytes[1]) + ")"@
        }),
{
    let status = bytes[0];
    assert(status >= 0xF0u8 ==> status & 0xF0 == 0xF0) by (bit_vector);
}

/// Two channel messages that differ in their channel only are of one kind; two of
/// different controllers, or with different high halves of their status, are
/// not.
pub proof fn kinds_ignore_channels(a: Seq<u8>, b: Seq<u8>)
    requires
        a.len() > 1,
        b.len() > 1,
        a[0] >= 0x80,
        b[0] >= 0x80,
        a[0] & 0xF0 != 0xF0,
        b[0] & 0xF0 != 0xF0,
    ensures
        a[0] & 0xF0 == b[0] & 0xF0 && a.skip(1) == b.skip(1) ==> kind_text(a) == kind_text(b),
        a[0] & 0xF0 == 0xB0 && b[0] & 0xF0 == 0xB0 && a[1] != b[1] ==> kind_text(a) != kind_text(b),
        a[0] & 0xF0 != b[0] & 0xF0 ==> kind_text(a) != kind_text(b),
{
    let (x, y) = (a[0], b[0]);
    assert(x & 0xF0 == 0x00 || x & 0xF0 == 0x10 || x & 0xF0 == 0x20 || x & 0xF0 == 0x30 || x & 0xF0
        == 0x40 || x & 0xF0 == 0x50 || x & 0xF0 == 0x60 || x & 0xF0 == 0x70 || x & 0xF0 == 0x80 || x
        & 0xF0 == 0x90 || x & 0xF0 == 0xA0 || x & 0xF0 == 0xB0 || x & 0xF0 == 0xC0 || x & 0xF0
        == 0xD0 || x & 0xF0 == 0xE0 || x & 0xF0 == 0xF0) by (bit_vector);
    assert(y & 0xF0 == 0x00 || y & 0xF0 == 0x10 || y & 0xF0 == 0x20 || y & 0xF0 == 0x30 || y & 0xF0
        == 0x40 || y & 0xF0 == 0x50 || y & 0xF0 == 0x60 || y & 0xF0 == 0x70 || y & 0xF0 == 0x80 || y
        & 0xF0 == 0x90 || y & 0xF0 == 0xA0 || y & 0xF0 == 0xB0 || y & 0xF0 == 0xC0 || y & 0xF0
        == 0xD0 || y & 0xF0 == 0xE0 || y & 0xF0 == 0xF0) by (bit_vector);
    assert(x >= 0x80 ==> x & 0xF0 >= 0x80) by (bit_vector);
    assert(y >= 0x80 ==> y & 0xF0 >= 0x80) by (bit_vector);
    reveal_strlit("Note Off");
    reveal_strlit("Note On");
    reveal_strlit("Poly Aftertouch");
    reveal_strlit("CC ");
    reveal_strlit("Program");
    reveal_strlit("Channel Pressure");
    reveal_strlit("Pitch Bend");
    dec_reads_back(a[1] as nat);
    dec_reads_back(b[1] as nat);
    let (da, db) = ("CC "@ + dec(a[1] as nat), "CC "@ + dec(b[1] as nat));
    assert(da.skip(3) =~= dec(a[1] as nat));
    assert(db.skip(3) =~= dec(b[1] as nat));
    assert(a.skip(1)[0] == a[1] && b.skip(1)[0] == b[1]);
    assert("Note Off"@.len() == 8 && "Note On"@.len() == 7 && "Poly Aftertouch"@.len() == 15
        && "Program"@.len() == 7 && "Channel Pressure"@.len() == 16 && "Pitch Bend"@.len() == 10);
    assert("Note On"@[0] == 'N' && "Program"@[0] == 'P' && "Note Off"@[0] == 'N' && "Pitch Bend"@[0]
        == 'P' && "Poly Aftertouch"@[0] == 'P' && "Channel Pressure"@[1] == 'h' && da[0] == 'C'
        && da[1] == 'C' && db[0] == 'C' && db[1] == 'C');
}

/// What a digit counts in hexadecimal.
pub open spec fn hex_counts(c: char) -> int {
    if '0' <= c <= '9' {
        c as int - 48
    } else {
        c as int - 87
    }
}

/// A byte in hexadecimal is two digits, the high one first; a list of bytes has
/// them in order, with a comma and a space between two.
pub proof fn bytes_read_back_from_hex(bytes: Seq<u8>, n: nat, b: u8)
    requires
        0 < n < bytes.len(),
    ensures
        hex_byte(b).len() == 2,
        16 * hex_counts(hex_byte(b)[0]) + hex_counts(hex_byte(b)[1]) == b,
        0 <= hex_counts(hex_byte(b)[0]) < 16,
        0 <= hex_counts(hex_byte(b)[1]) < 16,
        bytes_joined(bytes, 0).len() == 0,
        bytes_joined(bytes, 1) == hex_byte(bytes[0]),
        bytes_joined(bytes, n + 1) == bytes_joined(bytes, n) + seq![',', ' '] + hex_byte(
            bytes[n as int],
        ),
        bytes_text(bytes) == seq!['['] + bytes_joined(bytes, bytes.len()) + seq![']'],
{
}

/// A row of the monitor is its kind, its bytes and its count, set in columns.
pub proof fn rows_are_set_in_columns(row: RowModel, i: int)
    ensures
        ({
            let s = row_text(row);
            let k = row.kind.len();
            let d = row.detail.len();
            let first = if k < 17 {
                17int
            } else {
                k as int
            };
            let second = if d < 20 {
                20int
            } else {
                d as int
            };
            &&& s.take(k as int) == row.kind
            &&& k <= i < first ==> s[i] == ' '
            &&& s.subrange(first, first + d) == row.detail
            &&& first + d <= i < first + second ==> s[i] == ' '
            &&& s[first + second] == '\u{d7}'
            &&& s.skip(first + second + 1) == dec(row.count as nat)
        }),
{
    let s = row_text(row);
    let k = row.kind.len();
    let d = row.detail.len();
    let first = if k < 17 {
        17int
    } else {
        k as int
    };
    let second = if d < 20 {
        20int
    } else {
        d as int
    };
    assert(s.take(k as int) =~= row.kind);
    assert(s.subrange(first, first + d) =~= row.detail);
    assert(s.skip(first + second + 1) =~= dec(row.count as nat));
}

/// A logged message names its port, kind and channel, its note if it is about
/// one, and its bytes.
pub proof fn logged_messages_name_their_note(port: Seq<char>, bytes: Seq<u8>)
    requires
        bytes.len() > 1,
    ensures
        ({
            let head = "MIDI in  ["@ + port + "] "@ + short_kind(bytes[0]) + " ch="@ + dec(
                (bytes[0] & 0x0F) as nat,
            );
            let note = bytes[0] & 0xF0 == 0x80 || bytes[0] & 0xF0 == 0x90;
            &&& note ==> message_text(port, bytes) =~= head + seq![' '] + note_text(bytes[1])
                + " data="@ + bytes_text(bytes)
            &&& !note ==> message_text(port, bytes) =~= head + " data="@ + bytes_text(bytes)
        }),
{
}

// ---------------------------------------------------------------------------
// Keys and tasks
// ---------------------------------------------------------------------------

/// Playing ends exactly with control and c or q. Any other turn hands the key on,
/// and looks for devices once a second has passed.
pub proof fn control_c_and_q_quit(key: Option<KeyPress>, since_poll: u128)
    ensures
        turn_of(key, since_poll) is Quit <==> key is Some && (key->0).control && ((
        key->0).character == Some('c') || (key->0).character == Some('q')),
        turn_of(key, since_poll) matches Turn::Continue { key: k, poll } ==> k == key && poll == (
        since_poll >= 1000),
{
}

/// Without a subcommand the session of the command line runs with the interface;
/// to play runs the session of the subcommand without it; the others list or
/// describe what they name.
pub proof fn commands_give_their_task(cli: Cli)
    ensures
        cli.command is None ==> task_of(cli) == (Task::Run {
            session: cli.session,
            interface: true,
        }),
        cli.command matches Some(Command::Play { session }) ==> task_of(cli) == (Task::Run {
            session,
            interface: false,
        }),
        cli.command matches Some(Command::Enumerate(t)) ==> task_of(cli) == Task::List(t),
        cli.command matches Some(Command::Describe { plugin }) ==> task_of(cli) == (
        Task::Describe { plugin }),
{
}

// ---------------------------------------------------------------------------
// Times
// ---------------------------------------------------------------------------

proof fn zeros_count_nothing(zeros: nat, s: Seq<char>)
    ensures
        digits_value(Seq::new(zeros, |i: int| '0') + s) == digits_value(s),
    decreases s.len(), zeros,
{
    let all = Seq::new(zeros, |i: int| '0') + s;
    if s.len() > 0 {
        assert(all.drop_last() =~= Seq::new(zeros, |i: int| '0') + s.drop_last());
        zeros_count_nothing(zeros, s.drop_last());
    } else if zeros > 0 {
        let fewer = Seq::new((zeros - 1) as nat, |i: int| '0');
        assert(all.drop_last() =~= fewer + s);
        assert(s =~= Seq::empty());
        zeros_count_nothing((zeros - 1) as nat, s);
        assert(all.last() == '0');
        assert(digit_value('0') == 0);
    } else {
        assert(all =~= s);
    }
}

/// A number with zeros in front stands for the number and is at least as wide as
/// asked for.
pub proof fn padding_keeps_the_number(n: nat, width: int)
    ensures
        digits_value(zero_padded(n, width)) == n,
        zero_padded(n, width).len() >= width,
        dec(n).len() >= width ==> zero_padded(n, width) == dec(n),
        dec(n).len() < width ==> zero_padded(n, width).len() == width,
{
    dec_reads_back(n);
    let digits = dec(n);
    let zeros = if width > digits.len() {
        (width - digits.len()) as nat
    } else {
        0
    };
    zeros_count_nothing(zeros, digits);
    if zeros == 0 {
        assert(zero_padded(n, width) =~= dec(n));
    }
}

/// A log line gives the time of day in hours, minutes, seconds and milliseconds,
/// then the level and the message: the three count up to the seconds of the day.
pub proof fn log_lines_tell_the_time(
    seconds: u64,
    millis: u32,
    level: Seq<char>,
    message: Seq<char>,
    h: nat,
    m: nat,
    s: nat,
)
    requires
        m < 60,
        s < 60,
        3600 * h + 60 * m + s == seconds % 86400,
    ensures
        h < 24,
        log_text(seconds, millis, level, message) =~= seq!['['] + zero_padded(h, 2) + seq![':']
            + zero_padded(m, 2) + seq![':'] + zero_padded(s, 2) + seq!['.'] + zero_padded(
            millis as nat,
            3,
        ) + seq![' '] + level + seq![']', ' '] + message + seq!['\r', '\n'],
{
    let time = (seconds % 86400) as nat;
    assert(time / 3600 == h && time % 3600 / 60 == m && time % 60 == s);
}

// ---------------------------------------------------------------------------
// Paths
// ---------------------------------------------------------------------------

/// A path under a directory starts with the directory and ends with the path, and
/// there is a slash between them.
pub proof fn paths_start_at_their_directory(dir: Seq<char>, path: Seq<char>)
    ensures
        ({
            let p = under(dir, path);
            let n = p.len() - path.len();
            &&& p.take(dir.len() as int) == dir
            &&& p.skip(n) == path
            &&& dir.len() == 0 ==> n == 0
            &&& dir.len() > 0 ==> p[n - 1] == '/'
            &&& dir.len() > 0 && dir.last() == '/' ==> n == dir.len()
            &&& dir.len() > 0 && dir.last() != '/' ==> n == dir.len() + 1
        }),
{
    let p = under(dir, path);
    let n = p.len() - path.len();
    assert(p.take(dir.len() as int) =~= dir);
    assert(p.skip(n) =~= path);
}

/// A plugin that is named by a reference with a colon, or by a path from the root,
/// is found there; any other path starts at the session's directory.
pub proof fn plugins_are_found_beside_the_session(source: Seq<char>, dir: Seq<char>, i: int)
    ensures
        0 <= i < source.len() && source[i] == ':' ==> plugin_path(source, dir) == source,
        source.len() > 0 && source[0] == '/' ==> plugin_path(source, dir) == source,
        (forall|k: int| 0 <= k < source.len() ==> #[trigger] source[k] != ':') && (source.len() == 0
            || source[0] != '/') ==> plugin_path(source, dir) == under(dir, source),
{
    if 0 <= i < source.len() && source[i] == ':' {
        assert(source.contains(':'));
    }
}

/// The settings are in the system's place for them, or else under the home
/// directory's; without either there is no place.
pub proof fn settings_have_a_place(place: Option<Seq<char>>, home: Option<Seq<char>>)
    ensures
        place is Some ==> settings_dir(place, home) == Some(under(place->0, "tang"@)),
        place is None && home is Some ==> settings_dir(place, home) == Some(
            under(under(home->0, ".config"@), "tang"@),
        ),
        place is None && home is None ==> settings_dir(place, home) is None,
{
}

/// The value of a number in hexadecimal.
pub open spec fn hex_value(s: Seq<char>) -> int
    decreases s.len(),
{
    if s.len() == 0 {
        0
    } else {
        16 * hex_value(s.drop_last()) + hex_counts(s.last())
    }
}

/// A number in hexadecimal stands for the number, and starts with no zero but for
/// 0 itself.
pub proof fn hex_reads_back(n: nat)
    ensures
        hex_value(hex(n)) == n,
        hex(n).len() > 0,
        n > 0 ==> hex(n)[0] != '0',
    decreases n,
{
    if n >= 16 {
        hex_reads_back(n / 16);
        assert(hex(n).drop_last() =~= hex(n / 16));
        assert(hex_counts(hex_digit(n % 16)) == n % 16);
    } else {
        assert(hex(n).drop_last() =~= Seq::empty());
        assert(hex_value(hex(n).drop_last()) == 0);
        assert(hex_counts(hex_digit(n)) == n);
    }
}

/// A search path lists the further directories in order and then what it was,
/// with colons between them.
pub proof fn search_paths_are_extended_in_front(
    dirs: Seq<Seq<char>>,
    n: nat,
    current: Seq<char>,
)
    requires
        0 < n < dirs.len(),
    ensures
        colon_joined(dirs, 1) == dirs[0],
        colon_joined(dirs, n + 1) == colon_joined(dirs, n) + seq![':'] + dirs[n as int],
        current.len() == 0 ==> extended(dirs, current) == colon_joined(dirs, dirs.len()),
        current.len() > 0 ==> extended(dirs, current) == colon_joined(dirs, dirs.len()) + seq![':']
            + current,
{
}

// ---------------------------------------------------------------------------
// Listings
// ---------------------------------------------------------------------------

/// A listing of inputs has a heading and then a line for each port, in order, or
/// one that says that there is none; a port without a name is unknown.
pub proof fn ports_are_listed_in_order(ports: Seq<Option<String>>, i: int)
    ensures
        ({
            let lines = midi_lines(ports);
            &&& lines[0] == "=== MIDI Input Devices ==="@
            &&& ports.len() == 0 ==> lines.len() == 2 && lines[1] == "  (none found)"@
            &&& ports.len() > 0 ==> lines.len() == ports.len() + 1
            &&& 0 <= i < ports.len() && ports[i] is Some ==> lines[i + 1] == "  "@ + (ports[i]->0)@
            &&& 0 <= i < ports.len() && ports[i] is None ==> lines[i + 1] == "  Unknown"@
        }),
{
}

/// The usual output, and no other, is marked with a star.
pub proof fn usual_outputs_are_marked(d: AudioDevice, usual: Option<Seq<char>>)
    ensures
        ({
            let tail = "  ("@ + dec(d.channels as nat) + "ch, "@ + dec(d.rate as nat) + "Hz, "@
                + crate::enumerate::format_text(d.format) + ")"@;
            &&& usual == Some(d.name@) ==> device_text(d, usual) =~= "  "@ + d.name@ + " *"@ + tail
            &&& usual != Some(d.name@) ==> device_text(d, usual) =~= "  "@ + d.name@ + tail
        }),
{
}

/// A format that is not supported is listed as such, between blank lines as the
/// others: LV2 first, then CLAP, then VST3.
pub proof fn formats_are_listed_in_order(
    lv2: Option<Seq<FoundPlugin>>,
    clap: Seq<FoundPlugin>,
    vst3: Option<Seq<FoundPlugin>>,
)
    ensures
        ({
            let lines = all_lines(lv2, clap, vst3);
            &&& lines[0] == "=== LV2 Plugins ==="@
            &&& lv2 is None ==> {
                &&& lines[1] == "  (LV2 support not enabled)"@
                &&& lines[2] == ""@
                &&& lines[3] == "=== CLAP Plugins ==="@
                &&& clap.len() == 0 ==> lines[4] == "  (none found)"@ && lines[5] == ""@ && lines[6]
                    == "=== VST3 Plugins ==="@
            }
            &&& vst3 is None ==> {
                &&& lines[lines.len() - 2] == "=== VST3 Plugins ==="@
                &&& lines.last() == "  (VST3 support not enabled)"@
            }
        }),
{
}

/// The names of a choice are listed in order with bars between them.
pub proof fn choices_are_listed_in_order(names: Seq<Seq<char>>, n: nat)
    requires
        0 < n < names.len(),
    ensures
        bar_joined(names, 1) == names[0],
        bar_joined(names, n + 1) == bar_joined(names, n) + seq!['|'] + names[n as int],
{
}

} // verus!
