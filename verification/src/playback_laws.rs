//! What pattern recording and playback put out, note by note.

use vstd::prelude::*;

use crate::event::{status_type, MidiEvent};
use crate::pattern::{
    all_released, click_run, click_start, keys_without, metronome_advanced, metronome_output, note_map, notes_recorded,
    play_buffer, play_event, play_range, player_output, player_processed, scan_event, scan_events,
    scan_start, voice_off, voices_except, voices_of, voices_off, Click, ClickRun, NoteMap,
    PatternEvent, PatternVoice, Playback, PlayerModel, Scan,
};
use crate::pattern_laws::on_first_channel;

verus! {

// ---------------------------------------------------------------------------
// Messages by their bytes
// ---------------------------------------------------------------------------

/// A message presses a key: a note-on with a velocity.
pub open spec fn presses(ev: MidiEvent) -> bool {
    ev.1[0] & 0xF0 == 0x90 && ev.1[2] > 0
}

/// A message lets a key go: a note-off, or a note-on without velocity.
pub open spec fn lets_go(ev: MidiEvent) -> bool {
    ev.1[0] & 0xF0 == 0x80 || (ev.1[0] & 0xF0 == 0x90 && ev.1[2] == 0)
}

/// The player's own note-ons.
pub open spec fn struck(out: Seq<MidiEvent>) -> Seq<MidiEvent> {
    out.filter(|ev: MidiEvent| ev.1[0] == 0x90)
}

/// A number brought into 0..=127.
pub open spec fn in_midi_range(n: int) -> int {
    if n < 0 {
        0
    } else if n > 127 {
        127
    } else {
        n
    }
}

/// The note-ons of a pattern from frame `from` to before frame `to`, with the
/// notes that `sound` says, so that frame `from` comes at output frame `at`.
pub open spec fn notes_between(
    events: Seq<PatternEvent>,
    from: int,
    to: int,
    at: int,
    sound: spec_fn(u8) -> int,
) -> Seq<MidiEvent> {
    events.filter(|e: PatternEvent| e.status == 0x90 && from <= e.frame < to).map_values(
        |e: PatternEvent|
            ((e.frame - from + at) as u64, [0x90u8, sound(e.note) as u8, e.velocity]),
    )
}

proof fn struck_push(out: Seq<MidiEvent>, ev: MidiEvent)
    ensures
        struck(out.push(ev)) == (if ev.1[0] == 0x90 {
            struck(out).push(ev)
        } else {
            struck(out)
        }),
{
    reveal(Seq::filter);
    assert(out.push(ev).drop_last() =~= out);
}

proof fn offs_strike_nothing(out: Seq<MidiEvent>, voices: Seq<PatternVoice>, frame: u64)
    requires
        on_first_channel(voices),
    ensures
        struck(out + voices_off(voices, frame)) == struck(out),
    decreases voices.len(),
{
    if voices.len() == 0 {
        assert(out + voices_off(voices, frame) =~= out);
    } else {
        let rest = voices.drop_last();
        assert forall|i: int| 0 <= i < rest.len() implies (#[trigger] rest[i]).channel == 0 by {
            assert(rest[i] == voices[i]);
        }
        offs_strike_nothing(out, rest, frame);
        let v = voices[voices.len() - 1];
        assert(v.channel == 0);
        assert(0x80u8 | 0u8 == 0x80u8) by (bit_vector);
        assert(out + voices_off(voices, frame) =~= (out + voices_off(rest, frame)).push(
            voice_off(v, frame),
        ));
        struck_push(out + voices_off(rest, frame), voice_off(v, frame));
    }
}

proof fn parts_stay_on_first_channel(voices: Seq<PatternVoice>, note: u8)
    requires
        on_first_channel(voices),
    ensures
        on_first_channel(voices_of(voices, note)),
        on_first_channel(voices_except(voices, note)),
    decreases voices.len(),
{
    reveal(Seq::filter);
    if voices.len() > 0 {
        let rest = voices.drop_last();
        assert forall|i: int| 0 <= i < rest.len() implies (#[trigger] rest[i]).channel == 0 by {
            assert(rest[i] == voices[i]);
        }
        parts_stay_on_first_channel(rest, note);
        assert(voices[voices.len() - 1].channel == 0);
    }
}

proof fn ranges_strike_notes(
    p: Playback,
    events: Seq<PatternEvent>,
    n: nat,
    start: u64,
    end: u64,
    map: NoteMap,
    offset: u64,
    sound: spec_fn(u8) -> int,
)
    requires
        n <= events.len(),
        on_first_channel(p.voices),
        forall|note: u8| map.mapped(note) == sound(note) as u8,
    ensures
        ({
            let q = play_range(p, events, n, start, end, map, offset);
            &&& on_first_channel(q.voices)
            &&& struck(q.out) == struck(p.out) + notes_between(
                events.take(n as int),
                start as int,
                end as int,
                offset as int,
                sound,
            )
        }),
    decreases n,
{
    reveal(Seq::filter);
    let keep = |e: PatternEvent| e.status == 0x90 && start as int <= e.frame < end as int;
    let make = |e: PatternEvent|
        ((e.frame - start as int + offset as int) as u64, [0x90u8, sound(e.note) as u8, e.velocity]);
    if n == 0 {
        assert(events.take(0).filter(keep) =~= Seq::empty());
        assert(struck(p.out) + notes_between(
            events.take(0),
            start as int,
            end as int,
            offset as int,
            sound,
        ) =~= struck(p.out));
    } else {
        ranges_strike_notes(p, events, (n - 1) as nat, start, end, map, offset, sound);
        let before = play_range(p, events, (n - 1) as nat, start, end, map, offset);
        let ev = events[n - 1];
        let head = events.take(n - 1);
        assert(events.take(n as int).drop_last() =~= head);
        assert(events.take(n as int).last() == ev);
        let all = events.take(n as int).filter(keep);
        if start <= ev.frame < end {
            let frame = (ev.frame - start + offset) as u64;
            if ev.status == 0x90 {
                let on: MidiEvent = (frame, [0x90u8, map.mapped(ev.note), ev.velocity]);
                struck_push(before.out, on);
                assert(all =~= head.filter(keep).push(ev));
                assert(all.map_values(make) =~= head.filter(keep).map_values(make).push(make(ev)));
                assert(struck(before.out).push(on) =~= struck(p.out) + all.map_values(make));
            } else {
                let released = voices_of(before.voices, ev.note);
                parts_stay_on_first_channel(before.voices, ev.note);
                offs_strike_nothing(before.out, released, frame);
                struck_push(before.out, (frame, [0x80u8, map.mapped(ev.note), 0u8]));
                assert(all =~= head.filter(keep));
            }
        } else {
            assert(all =~= head.filter(keep));
        }
    }
}

proof fn scans_strike_nothing(s: Scan, midi: Seq<MidiEvent>)
    requires
        on_first_channel(s.voices),
    ensures
        struck(scan_events(s, midi).out) == struck(s.out),
        on_first_channel(scan_events(s, midi).voices),
    decreases midi.len(),
{
    if midi.len() > 0 {
        scans_strike_nothing(s, midi.drop_last());
        let t = scan_events(s, midi.drop_last());
        let ev = midi.last();
        offs_strike_nothing(t.out, t.voices, ev.0);
        struck_push(t.out, ev);
        let status = ev.1[0];
        assert(status == 0x90 ==> status & 0xF0 == 0x90) by (bit_vector);
        assert(status_type(ev) == status & 0xF0);
    }
}

// ---------------------------------------------------------------------------
// Which notes sound, and when
// ---------------------------------------------------------------------------

/// The note-ons of one buffer that plays a pattern from `pos`: those of the
/// pattern's events that it runs over. At the pattern's end a looping one starts
/// over.
pub open spec fn notes_of_buffer(
    p: PlayerModel,
    pos: int,
    frames: int,
    sound: spec_fn(u8) -> int,
) -> Seq<MidiEvent> {
    let length = p.length_samples as int;
    if pos + frames <= length {
        notes_between(p.events, pos, pos + frames, 0, sound)
    } else if p.looping {
        notes_between(p.events, pos, length, 0, sound) + notes_between(
            p.events,
            0,
            pos + frames - length,
            length - pos,
            sound,
        )
    } else {
        notes_between(p.events, pos, length, 0, sound)
    }
}

/// Where playback stands after a buffer.
pub open spec fn position_after(p: PlayerModel, pos: int, frames: int) -> int {
    let length = p.length_samples as int;
    if p.looping {
        if pos + frames >= length {
            pos + frames - length
        } else {
            pos + frames
        }
    } else if pos + frames >= length {
        length
    } else {
        pos + frames
    }
}

proof fn buffers_strike_notes(
    q: Playback,
    p: PlayerModel,
    pos: u64,
    frames: int,
    map: NoteMap,
    sound: spec_fn(u8) -> int,
)
    requires
        on_first_channel(q.voices),
        0 < frames <= p.length_samples,
        pos <= p.length_samples,
        forall|note: u8| map.mapped(note) == sound(note) as u8,
    ensures
        ({
            let (r, after) = play_buffer(
                q,
                p.events,
                p.length_samples,
                p.looping,
                pos,
                frames,
                map,
            );
            &&& struck(r.out) == struck(q.out) + notes_of_buffer(p, pos as int, frames, sound)
            &&& after == position_after(p, pos as int, frames)
        }),
{
    let n = p.events.len();
    let length = p.length_samples;
    let end = pos + frames;
    assert(p.events.take(n as int) =~= p.events);
    if end > length {
        let offset = (length - pos) as u64;
        ranges_strike_notes(q, p.events, n, pos, length, map, 0, sound);
        let played = play_range(q, p.events, n, pos, length, map, 0);
        offs_strike_nothing(played.out, played.voices, offset);
        let first = all_released(played, offset);
        let rest = (end - length) as u64;
        ranges_strike_notes(first, p.events, n, 0, rest, map, offset, sound);
        let a = notes_between(p.events, pos as int, length as int, 0, sound);
        let b = notes_between(p.events, 0, end - length, length - pos, sound);
        assert(struck(q.out) + a + b =~= struck(q.out) + (a + b));
    } else {
        ranges_strike_notes(q, p.events, n, pos, end as u64, map, 0, sound);
        let played = play_range(q, p.events, n, pos, end as u64, map, 0);
        offs_strike_nothing(played.out, played.voices, (frames - 1) as u64);
    }
}

/// A player is on and has a pattern to play from a base note.
pub open spec fn ready(p: PlayerModel, base: u8) -> bool {
    &&& p.enabled
    &&& !p.counting_in
    &&& !p.recording
    &&& p.events.len() > 0
    &&& p.base_note == Some(base)
}

/// Chromatic playback. While key `key` triggers a pattern with base note `base`,
/// each of the pattern's note-ons comes out when it is due, with its velocity, and
/// as its own note moved by as many semitones as the key is above the base note, or
/// below it, within 0..=127; no other note-on does. So the base note sounds as the
/// key that is held, for every key. The position moves on by the buffer, and round
/// at the end of a looping pattern.
pub proof fn patterns_sound_from_the_key(
    p: PlayerModel,
    midi: Seq<MidiEvent>,
    frames: int,
    degrees: &[u8],
    length: u64,
    base: u8,
    key: u8,
)
    requires
        ready(p, base),
        !p.in_key,
        on_first_channel(p.active_voices),
        0 < frames <= p.length_samples,
        scan_events(scan_start(p), midi).pos <= p.length_samples,
        scan_events(scan_start(p), midi).trigger == Some(key),
    ensures
        ({
            let pos = scan_events(scan_start(p), midi).pos as int;
            let sound = |note: u8| in_midi_range(note + (key - base));
            &&& struck(player_output(p, midi, frames, degrees)) == notes_of_buffer(
                p,
                pos,
                frames,
                sound,
            )
            &&& player_processed(p, midi, frames, degrees, length).playback_pos == position_after(
                p,
                pos,
                frames,
            )
            &&& key <= 127 ==> sound(base) == key
        }),
{
    let sound = |note: u8| in_midi_range(note + (key - base));
    let s = scan_events(scan_start(p), midi);
    let map = note_map(p, key, degrees);
    scans_strike_nothing(scan_start(p), midi);
    reveal(Seq::filter);
    assert(struck(scan_start(p).out) =~= Seq::empty());
    buffers_strike_notes(Playback { voices: s.voices, out: s.out }, p, s.pos, frames, map, sound);
    assert(Seq::<MidiEvent>::empty() + notes_of_buffer(p, s.pos as int, frames, sound)
        =~= notes_of_buffer(p, s.pos as int, frames, sound));
}

/// Playback in key. The same holds, but that each note becomes the one that the
/// scale's table gives for it.
pub proof fn patterns_sound_in_key(
    p: PlayerModel,
    midi: Seq<MidiEvent>,
    frames: int,
    degrees: &[u8],
    length: u64,
    base: u8,
    key: u8,
)
    requires
        ready(p, base),
        p.in_key,
        on_first_channel(p.active_voices),
        0 < frames <= p.length_samples,
        scan_events(scan_start(p), midi).pos <= p.length_samples,
        scan_events(scan_start(p), midi).trigger == Some(key),
    ensures
        ({
            let pos = scan_events(scan_start(p), midi).pos as int;
            let sound = |note: u8| degrees@[note as int] as int;
            &&& struck(player_output(p, midi, frames, degrees)) == notes_of_buffer(
                p,
                pos,
                frames,
                sound,
            )
            &&& player_processed(p, midi, frames, degrees, length).playback_pos == position_after(
                p,
                pos,
                frames,
            )
        }),
{
    let sound = |note: u8| degrees@[note as int] as int;
    let s = scan_events(scan_start(p), midi);
    let map = note_map(p, key, degrees);
    scans_strike_nothing(scan_start(p), midi);
    reveal(Seq::filter);
    assert(struck(scan_start(p).out) =~= Seq::empty());
    buffers_strike_notes(Playback { voices: s.voices, out: s.out }, p, s.pos, frames, map, sound);
    assert(Seq::<MidiEvent>::empty() + notes_of_buffer(p, s.pos as int, frames, sound)
        =~= notes_of_buffer(p, s.pos as int, frames, sound));
}

/// Without a key, or while it is off, has no pattern, counts in or records, a
/// player starts no note of its own: in the last four cases it passes on just what
/// comes in, and off or without a pattern it stays as it is.
pub proof fn idle_players_pass_everything(
    p: PlayerModel,
    midi: Seq<MidiEvent>,
    frames: int,
    degrees: &[u8],
    length: u64,
)
    ensures
        p.counting_in || p.recording || !p.enabled || p.events.len() == 0 || p.base_note is None
            ==> player_output(p, midi, frames, degrees) == midi,
        !p.counting_in && !p.recording && (!p.enabled || p.events.len() == 0 || p.base_note is None)
            ==> player_processed(p, midi, frames, degrees, length) == p,
        on_first_channel(p.active_voices) && !p.counting_in && !p.recording && p.enabled
            && p.events.len() > 0 && p.base_note is Some && scan_events(
            scan_start(p),
            midi,
        ).trigger is None ==> struck(player_output(p, midi, frames, degrees)).len() == 0,
{
    if on_first_channel(p.active_voices) {
        scans_strike_nothing(scan_start(p), midi);
        reveal(Seq::filter);
    }
}

// ---------------------------------------------------------------------------
// Keys
// ---------------------------------------------------------------------------

/// What the last message for a key says: whether it is held, if there is one.
pub open spec fn last_said(midi: Seq<MidiEvent>, key: u8) -> Option<bool>
    decreases midi.len(),
{
    if midi.len() == 0 {
        None
    } else {
        let ev = midi.last();
        if ev.1[1] == key && presses(ev) {
            Some(true)
        } else if ev.1[1] == key && lets_go(ev) {
            Some(false)
        } else {
            last_said(midi.drop_last(), key)
        }
    }
}

proof fn dropped_keys(held: Seq<u8>, note: u8, key: u8)
    ensures
        keys_without(held, note).contains(key) == (key != note && held.contains(key)),
    decreases held.len(),
{
    reveal(Seq::filter);
    if held.len() > 0 {
        let rest = held.drop_last();
        let last = held.last();
        dropped_keys(rest, note, key);
        let kept = keys_without(rest, note);
        let all = keys_without(held, note);
        if rest.contains(key) {
            let i = choose|i: int| 0 <= i < rest.len() && rest[i] == key;
            assert(held[i] == key);
        }
        if held.contains(key) && !rest.contains(key) {
            let i = choose|i: int| 0 <= i < held.len() && held[i] == key;
            assert(i == held.len() - 1) by {
                if i < held.len() - 1 {
                    assert(rest[i] == key);
                }
            }
        }
        if last == key {
            assert(held[held.len() - 1] == key);
        }
        if last != note {
            assert(all == kept.push(last));
            if kept.contains(key) {
                let i = choose|i: int| 0 <= i < kept.len() && kept[i] == key;
                assert(all[i] == key);
            }
            assert(all[all.len() - 1] == last);
            if all.contains(key) && key != last {
                let i = choose|i: int| 0 <= i < all.len() && all[i] == key;
                assert(kept[i] == key);
            }
        }
    }
}

/// A key is held after a buffer exactly if the last message for it pressed it, or
/// there was none and it was held before.
pub proof fn held_keys_follow_messages(s: Scan, midi: Seq<MidiEvent>, key: u8)
    ensures
        scan_events(s, midi).held.contains(key) == (match last_said(midi, key) {
            Some(held) => held,
            None => s.held.contains(key),
        }),
    decreases midi.len(),
{
    if midi.len() > 0 {
        held_keys_follow_messages(s, midi.drop_last(), key);
        let t = scan_events(s, midi.drop_last());
        let ev = midi.last();
        let note = ev.1[1];
        dropped_keys(t.held, note, key);
        if presses(ev) {
            let held = t.held.push(note);
            assert(held[held.len() - 1] == note);
            if t.held.contains(key) {
                let i = choose|i: int| 0 <= i < t.held.len() && t.held[i] == key;
                assert(held[i] == key);
            }
            if held.contains(key) && key != note {
                let i = choose|i: int| 0 <= i < held.len() && held[i] == key;
                assert(t.held[i] == key);
            }
        }
    }
}

/// The keys other than `key`, in order.
pub open spec fn other_keys(held: Seq<u8>, key: u8) -> Seq<u8> {
    held.filter(|k: u8| k != key)
}

/// The note-offs that let go of voices, in order.
pub open spec fn let_go(voices: Seq<PatternVoice>, frame: u64) -> Seq<MidiEvent> {
    Seq::new(
        voices.len(),
        |i: int| (frame, [0x80u8 | voices[i].channel, voices[i].playing_note, 0u8]),
    )
}

/// What one message does to the trigger. A pressed key joins the held ones as the
/// latest, takes over and starts the pattern from its beginning; another key that
/// it takes over from lets go of its voices right away. A key that is let go leaves
/// the held ones; if it was the trigger its voices go, and the latest key that is
/// left takes over from the beginning, if there is one. Anything else passes.
pub proof fn messages_move_the_trigger(s: Scan, ev: MidiEvent)
    ensures
        ({
            let t = scan_event(s, ev);
            let note = ev.1[1];
            let offs = let_go(s.voices, ev.0);
            if presses(ev) {
                &&& t.held == s.held.push(note)
                &&& t.trigger == Some(note)
                &&& t.pos == 0
                &&& s.trigger is Some && s.trigger->0 != note ==> t.voices.len() == 0 && t.out
                    == s.out + offs
                &&& s.trigger is None || s.trigger->0 == note ==> t.voices == s.voices && t.out
                    == s.out
            } else if lets_go(ev) {
                &&& t.held == other_keys(s.held, note)
                &&& s.trigger == Some(note) ==> {
                    &&& t.voices.len() == 0
                    &&& t.out == s.out + offs
                    &&& t.held.len() > 0 ==> t.trigger == Some(t.held.last()) && t.pos == 0
                    &&& t.held.len() == 0 ==> t.trigger is None
                }
                &&& s.trigger != Some(note) ==> t.trigger == s.trigger && t.pos == s.pos && t.voices
                    == s.voices && t.out == s.out
            } else {
                t == Scan { out: s.out.push(ev), ..s }
            }
        }),
{
    assert(voices_off(s.voices, ev.0) =~= let_go(s.voices, ev.0));
}

// ---------------------------------------------------------------------------
// Note-offs
// ---------------------------------------------------------------------------

/// A pattern's note-off stops what its note is sounding: each voice of the note
/// gets a note-off of its own, at the frame at which it is due, and is gone; the
/// other voices sound on. A note that sounds nowhere is still sent one note-off.
pub proof fn pattern_offs_stop_their_note(
    p: Playback,
    ev: PatternEvent,
    map: NoteMap,
    frame: u64,
)
    requires
        ev.status != 0x90,
    ensures
        ({
            let q = play_event(p, ev, map, frame);
            let stopped = p.voices.filter(|v: PatternVoice| v.pattern_note == ev.note);
            &&& q.voices == p.voices.filter(|v: PatternVoice| v.pattern_note != ev.note)
            &&& stopped.len() > 0 ==> q.out == p.out + stopped.map_values(
                |v: PatternVoice| (frame, [0x80u8 | v.channel, v.playing_note, 0u8]),
            )
            &&& stopped.len() == 0 ==> q.out == p.out.push(
                (frame, [0x80u8, map.mapped(ev.note), 0u8]),
            )
        }),
{
    let stopped = voices_of(p.voices, ev.note);
    assert(voices_off(stopped, frame) =~= stopped.map_values(
        |v: PatternVoice| (frame, [0x80u8 | v.channel, v.playing_note, 0u8]),
    ));
}

/// A pattern's note-on sounds a voice that remembers its own note, so that its
/// note-off finds it whatever key it sounded under.
pub proof fn pattern_ons_sound_a_voice(p: Playback, ev: PatternEvent, map: NoteMap, frame: u64)
    requires
        ev.status == 0x90,
    ensures
        ({
            let q = play_event(p, ev, map, frame);
            &&& q.voices.len() == p.voices.len() + 1
            &&& q.voices.drop_last() == p.voices
            &&& q.voices.last().pattern_note == ev.note
            &&& q.voices.last().channel == 0
            &&& q.out == p.out.push((frame, [0x90u8, q.voices.last().playing_note, ev.velocity]))
        }),
{
    assert(play_event(p, ev, map, frame).voices.drop_last() =~= p.voices);
}

/// At a pattern's end every voice is let go of: where the buffer runs past the end,
/// at the frame of the end; where it stops there, at its last frame. What sounds on
/// in a looping pattern was started after that.
pub proof fn patterns_end_with_their_voices(
    p: Playback,
    events: Seq<PatternEvent>,
    length: u64,
    looping: bool,
    pos: u64,
    frames: int,
    map: NoteMap,
    v: PatternVoice,
)
    requires
        0 < frames <= length,
        pos <= length,
        pos + frames >= length,
    ensures
        ({
            let (q, _) = play_buffer(p, events, length, looping, pos, frames, map);
            let sounding = play_range(p, events, events.len(), pos, length, map, 0).voices;
            let at = if pos + frames > length {
                length - pos
            } else {
                frames - 1
            };
            &&& sounding.contains(v) ==> q.out.contains(
                (at as u64, [0x80u8 | v.channel, v.playing_note, 0u8]),
            )
            &&& !looping || pos + frames == length ==> q.voices.len() == 0
            &&& looping && pos + frames > length ==> q.voices == play_range(
                Playback { voices: Seq::empty(), out: q.out },
                events,
                events.len(),
                0,
                (pos + frames - length) as u64,
                map,
                (length - pos) as u64,
            ).voices
        }),
{
    let n = events.len();
    let end = pos + frames;
    let at = if end > length {
        (length - pos) as u64
    } else {
        (frames - 1) as u64
    };
    let played = play_range(p, events, n, pos, length, map, 0);
    let first = all_released(played, at);
    let (q, _) = play_buffer(p, events, length, looping, pos, frames, map);
    if played.voices.contains(v) {
        let i = choose|i: int| 0 <= i < played.voices.len() && played.voices[i] == v;
        let k = played.out.len() + i;
        assert(first.out[k] == voice_off(v, at));
        if looping && end > length {
            outputs_grow(first, events, n, 0, (end - length) as u64, map, at);
            assert(q.out[k] == first.out[k]);
        }
        assert(q.out[k] == voice_off(v, at));
    }
    if looping && end > length {
        voices_ignore_output(
            first,
            Playback { voices: Seq::empty(), out: q.out },
            events,
            n,
            0,
            (end - length) as u64,
            map,
            at,
        );
    }
}

proof fn outputs_grow(
    p: Playback,
    events: Seq<PatternEvent>,
    n: nat,
    start: u64,
    end: u64,
    map: NoteMap,
    offset: u64,
)
    requires
        n <= events.len(),
    ensures
        ({
            let q = play_range(p, events, n, start, end, map, offset);
            &&& q.out.len() >= p.out.len()
            &&& forall|i: int| 0 <= i < p.out.len() ==> #[trigger] q.out[i] == p.out[i]
        }),
    decreases n,
{
    if n > 0 {
        outputs_grow(p, events, (n - 1) as nat, start, end, map, offset);
    }
}

proof fn voices_ignore_output(
    p: Playback,
    o: Playback,
    events: Seq<PatternEvent>,
    n: nat,
    start: u64,
    end: u64,
    map: NoteMap,
    offset: u64,
)
    requires
        n <= events.len(),
        p.voices == o.voices,
    ensures
        play_range(p, events, n, start, end, map, offset).voices == play_range(
            o,
            events,
            n,
            start,
            end,
            map,
            offset,
        ).voices,
    decreases n,
{
    if n > 0 {
        voices_ignore_output(p, o, events, (n - 1) as nat, start, end, map, offset);
    }
}

// ---------------------------------------------------------------------------
// Recording
// ---------------------------------------------------------------------------

/// The event that a recording makes of a note message.
pub open spec fn event_noted(ev: MidiEvent, frame: u64) -> PatternEvent {
    PatternEvent {
        frame,
        status: if presses(ev) {
            0x90
        } else {
            0x80
        },
        note: ev.1[1],
        velocity: if presses(ev) {
            ev.1[2]
        } else {
            0
        },
    }
}

/// The note messages of a buffer as a recording that stands at `pos` takes them down;
/// without a position, at the very beginning.
pub open spec fn notes_noted(midi: Seq<MidiEvent>, pos: Option<u64>) -> Seq<PatternEvent> {
    midi.filter(|ev: MidiEvent| presses(ev) || lets_go(ev)).map_values(
        |ev: MidiEvent|
            event_noted(
                ev,
                match pos {
                    Some(pos) => (pos + ev.0) as u64,
                    None => 0,
                },
            ),
    )
}

/// A recording takes down every note message and nothing else, in order: as a
/// note-on with its velocity, or as a note-off, at the frame at which it came, or at
/// the very beginning during the count-in.
pub proof fn recordings_take_down_notes(
    taken: Seq<PatternEvent>,
    midi: Seq<MidiEvent>,
    pos: u64,
    snap: bool,
)
    ensures
        notes_recorded(taken, midi, pos, snap) == taken + notes_noted(
            midi,
            if snap {
                None
            } else {
                Some(pos)
            },
        ),
    decreases midi.len(),
{
    reveal(Seq::filter);
    let at = if snap {
        None
    } else {
        Some(pos)
    };
    let keep = |ev: MidiEvent| presses(ev) || lets_go(ev);
    if midi.len() == 0 {
        assert(taken + notes_noted(midi, at) =~= taken);
    } else {
        recordings_take_down_notes(taken, midi.drop_last(), pos, snap);
        let ev = midi.last();
        let rest = midi.drop_last().filter(keep);
        let e = event_noted(
            ev,
            match at {
                Some(pos) => (pos + ev.0) as u64,
                None => 0,
            },
        );
        if keep(ev) {
            assert(midi.filter(keep) =~= rest.push(ev));
            assert(notes_noted(midi, at) =~= notes_noted(midi.drop_last(), at).push(e));
            assert(taken + notes_noted(midi.drop_last(), at).push(e) =~= (taken + notes_noted(
                midi.drop_last(),
                at,
            )).push(e));
        } else {
            assert(notes_noted(midi, at) =~= notes_noted(midi.drop_last(), at));
        }
    }
}

/// The count-in lasts four beats: a buffer that gets there starts the recording
/// from its beginning, any other goes on counting. What is played during the
/// count-in is taken down.
pub proof fn count_ins_last_four_beats(
    p: PlayerModel,
    midi: Seq<MidiEvent>,
    frames: int,
    degrees: &[u8],
    length: u64,
)
    requires
        p.counting_in,
        !p.recording,
        0 <= frames,
        p.record_pos + frames <= u64::MAX,
    ensures
        ({
            let q = player_processed(p, midi, frames, degrees, length);
            let four = 4 * p.beat_length_samples;
            &&& p.record_pos + frames >= four ==> !q.counting_in && q.recording && q.record_pos == 0
            &&& p.record_pos + frames < four ==> q.counting_in && !q.recording && q.record_pos
                == p.record_pos + frames
            &&& q.recording_events == p.recording_events + notes_noted(midi, None)
            &&& q.events == p.events
            &&& q.base_note == p.base_note
        }),
{
    recordings_take_down_notes(p.recording_events, midi, 0, true);
}

/// A recording goes on until it is as long as the pattern is to be. Then what was
/// taken down before that length is the pattern, ready to play, and nothing is left
/// to take down; until then the pattern is as before.
pub proof fn recordings_end_at_their_length(
    p: PlayerModel,
    midi: Seq<MidiEvent>,
    frames: int,
    degrees: &[u8],
    length: u64,
)
    requires
        !p.counting_in,
        p.recording,
        0 <= frames,
        p.record_pos + frames <= u64::MAX,
    ensures
        ({
            let q = player_processed(p, midi, frames, degrees, length);
            let pos = p.record_pos;
            let taken = p.recording_events + notes_noted(midi, Some(pos));
            &&& pos + frames < length ==> q.recording && q.record_pos == pos + frames
                && q.recording_events == taken && q.events == p.events && q.enabled == p.enabled
            &&& pos + frames >= length ==> !q.recording && !q.counting_in && q.events
                == taken.filter(|e: PatternEvent| e.frame < length) && q.length_samples == length
                && q.recording_events.len() == 0 && q.enabled == (q.events.len() > 0)
        }),
{
    recordings_take_down_notes(p.recording_events, midi, p.record_pos, false);
}

// ---------------------------------------------------------------------------
// Metronome
// ---------------------------------------------------------------------------

/// The click state fits its sample position: inside a beat, the click that the beat
/// started has what is left of its duration, and is a downbeat's on every fourth
/// beat, the first among them.
pub open spec fn in_step(remaining: u32, downbeat: bool, pos: int, beat: int, duration: u32) -> bool {
    pos % beat != 0 ==> {
        &&& remaining == (if pos % beat < duration {
            duration - pos % beat
        } else {
            0
        })
        &&& downbeat == ((pos / beat) % 4 == 0)
    }
}

/// Some click sample falls on a frame.
pub open spec fn clicks_at(clicks: Seq<Click>, frame: int) -> bool {
    exists|i: int| 0 <= i < clicks.len() && (#[trigger] clicks[i]).frame == frame
}

/// A click sample is what its sample position says: it starts a click on a beat, is
/// a downbeat's on every fourth beat, and knows how much of the click is left.
pub open spec fn click_fits(k: Click, pos: int, beat: int, duration: u32) -> bool {
    let at = pos + k.frame;
    &&& k.starts == (at % beat == 0)
    &&& k.downbeat == ((at / beat) % 4 == 0)
    &&& at % beat < duration
    &&& k.remaining == duration - at % beat
}

proof fn positions_step(at: int, beat: int)
    requires
        beat > 0,
        at >= 0,
        (at + 1) % beat != 0,
    ensures
        (at + 1) % beat == at % beat + 1,
        (at + 1) / beat == at / beat,
{
    vstd::arithmetic::div_mod::lemma_fundamental_div_mod(at + 1, beat);
    vstd::arithmetic::div_mod::lemma_mod_bound(at + 1, beat);
    let q = (at + 1) / beat;
    let r = (at + 1) % beat;
    assert(at == q * beat + (r - 1)) by (nonlinear_arith)
        requires
            at + 1 == beat * q + r,
    ;
    vstd::arithmetic::div_mod::lemma_fundamental_div_mod_converse(at, beat, q, r - 1);
}

proof fn clicks_run(start: ClickRun, pos: int, beat: int, duration: u32, n: nat)
    requires
        beat > 0,
        pos >= 0,
        n <= usize::MAX,
        start.clicks.len() == 0,
        in_step(start.remaining, start.downbeat, pos, beat, duration),
    ensures
        ({
            let c = click_run(start, pos, beat, duration, n);
            &&& in_step(c.remaining, c.downbeat, pos + n, beat, duration)
            &&& forall|i: int|
                0 <= i < c.clicks.len() ==> (#[trigger] c.clicks[i]).frame < n && click_fits(
                    c.clicks[i],
                    pos,
                    beat,
                    duration,
                )
            &&& forall|f: int|
                0 <= f < n && (pos + f) % beat < duration ==> #[trigger] clicks_at(c.clicks, f)
            &&& forall|i: int, j: int|
                0 <= i < j < c.clicks.len() ==> (#[trigger] c.clicks[i]).frame < (
                #[trigger] c.clicks[j]).frame
        }),
    decreases n,
{
    if n > 0 {
        clicks_run(start, pos, beat, duration, (n - 1) as nat);
        let before = click_run(start, pos, beat, duration, (n - 1) as nat);
        let c = click_run(start, pos, beat, duration, n);
        let at = pos + n - 1;
        vstd::arithmetic::div_mod::lemma_mod_bound(at, beat);
        if (at + 1) % beat != 0 {
            positions_step(at, beat);
        }
        assert forall|f: int| 0 <= f < n && (pos + f) % beat < duration implies #[trigger] clicks_at(
            c.clicks,
            f,
        ) by {
            if f < n - 1 {
                assert(clicks_at(before.clicks, f));
                let i = choose|i: int|
                    0 <= i < before.clicks.len() && (#[trigger] before.clicks[i]).frame == f;
                assert(c.clicks[i] == before.clicks[i]);
            } else {
                assert(c.clicks[c.clicks.len() - 1].frame == f);
            }
        }
    }
}

/// The metronome clicks on the beat. While a player counts in or records, a click
/// starts on every sample that is a whole number of beats from the start, and lasts
/// for its duration or until the next; every fourth one, the first among them, is a
/// downbeat. There is a click sample on just those frames, in order, and the
/// metronome moves on by the buffer, still in step. Otherwise it is silent.
pub proof fn metronomes_click_on_the_beat(p: PlayerModel, frames: nat, duration: u32)
    requires
        frames <= usize::MAX,
        p.metronome_pos + frames <= u64::MAX,
        p.beat_length_samples > 0 ==> in_step(
            p.click_remaining,
            p.click_is_downbeat,
            p.metronome_pos as int,
            p.beat_length_samples as int,
            duration,
        ),
    ensures
        ({
            let clicks = metronome_output(p, frames, duration);
            let q = metronome_advanced(p, frames, duration);
            let pos = p.metronome_pos as int;
            let beat = p.beat_length_samples as int;
            if (p.counting_in || p.recording) && beat > 0 {
                &&& forall|i: int|
                    0 <= i < clicks.len() ==> (#[trigger] clicks[i]).frame < frames && click_fits(
                        clicks[i],
                        pos,
                        beat,
                        duration,
                    )
                &&& forall|f: int|
                    0 <= f < frames && (pos + f) % beat < duration ==> #[trigger] clicks_at(
                        clicks,
                        f,
                    )
                &&& forall|i: int, j: int|
                    0 <= i < j < clicks.len() ==> (#[trigger] clicks[i]).frame < (
                    #[trigger] clicks[j]).frame
                &&& q.metronome_pos == pos + frames
                &&& in_step(q.click_remaining, q.click_is_downbeat, pos + frames, beat, duration)
            } else {
                clicks.len() == 0 && q == p
            }
        }),
{
    if (p.counting_in || p.recording) && p.beat_length_samples > 0 {
        clicks_run(
            click_start(p),
            p.metronome_pos as int,
            p.beat_length_samples as int,
            duration,
            frames,
        );
    }
}

} // verus!
