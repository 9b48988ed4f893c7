//! What holds of pattern recording and playback as a whole.

use vstd::prelude::*;

use crate::event::{note_edge, status_type, MidiEvent};
use crate::pattern::{
    all_released, events_before, first_note, fresh_player, keys_without, note_map, pattern_cleared,
    pattern_set, pattern_taken, play_buffer, play_event, play_range, playback_output,
    player_played, player_processed, recording_finalized, recording_started, recording_stopped,
    scan_event, scan_events, scan_start, voice_off, voices_except, voices_of, voices_off, NoteMap,
    PatternEvent, PatternVoice, Playback, PlayerModel, Scan,
};

verus! {

// ---------------------------------------------------------------------------
// The latest key leads
// ---------------------------------------------------------------------------

/// The trigger is the most recently pressed of the keys that are still held.
pub open spec fn latest_key_leads(held: Seq<u8>, trigger: Option<u8>) -> bool {
    trigger == if held.len() > 0 {
        Some(held.last())
    } else {
        None
    }
}

proof fn scan_event_follows_latest(s: Scan, ev: MidiEvent)
    requires
        latest_key_leads(s.held, s.trigger),
    ensures
        latest_key_leads(scan_event(s, ev).held, scan_event(s, ev).trigger),
{
    let note = ev.1[1];
    if note_edge(ev) is Off && s.trigger != Some(note) {
        reveal(Seq::filter);
        if s.held.len() > 0 {
            assert(keys_without(s.held, note) == keys_without(s.held.drop_last(), note).push(
                s.held.last(),
            ));
        }
    }
}

/// However keys are pressed and released, playback follows the most recently
/// pressed key that is still held, and stops when none is.
pub proof fn playback_follows_latest_key(s: Scan, midi: Seq<MidiEvent>)
    requires
        latest_key_leads(s.held, s.trigger),
    ensures
        latest_key_leads(scan_events(s, midi).held, scan_events(s, midi).trigger),
    decreases midi.len(),
{
    if midi.len() > 0 {
        playback_follows_latest_key(s, midi.drop_last());
        scan_event_follows_latest(scan_events(s, midi.drop_last()), midi.last());
    }
}

/// A whole buffer keeps the trigger on the latest key, whatever the player is
/// doing.
pub proof fn processing_follows_latest_key(
    p: PlayerModel,
    midi: Seq<MidiEvent>,
    frames: int,
    degrees: &[u8],
    length: u64,
)
    requires
        latest_key_leads(p.held_notes, p.trigger_note),
    ensures
        ({
            let q = player_processed(p, midi, frames, degrees, length);
            latest_key_leads(q.held_notes, q.trigger_note)
        }),
{
    playback_follows_latest_key(scan_start(p), midi);
}

// ---------------------------------------------------------------------------
// No sounding note is forgotten
// ---------------------------------------------------------------------------

/// How many note-ons for note `k` the player itself put out.
pub open spec fn note_ons(out: Seq<MidiEvent>, k: u8) -> nat
    decreases out.len(),
{
    if out.len() == 0 {
        0
    } else {
        note_ons(out.drop_last(), k) + if out.last().1[0] == 0x90 && out.last().1[1] == k {
            1nat
        } else {
            0nat
        }
    }
}

/// How many note-offs for note `k` the player itself put out.
pub open spec fn note_offs(out: Seq<MidiEvent>, k: u8) -> nat
    decreases out.len(),
{
    if out.len() == 0 {
        0
    } else {
        note_offs(out.drop_last(), k) + if out.last().1[0] == 0x80 && out.last().1[1] == k {
            1nat
        } else {
            0nat
        }
    }
}

/// How many voices sound note `k`.
pub open spec fn sounding(voices: Seq<PatternVoice>, k: u8) -> nat
    decreases voices.len(),
{
    if voices.len() == 0 {
        0
    } else {
        sounding(voices.drop_last(), k) + if voices.last().playing_note == k {
            1nat
        } else {
            0nat
        }
    }
}

/// Every voice is on the first channel, as playback starts them.
pub open spec fn on_first_channel(voices: Seq<PatternVoice>) -> bool {
    forall|i: int| 0 <= i < voices.len() ==> (#[trigger] voices[i]).channel == 0
}

proof fn counts_add(a: Seq<MidiEvent>, b: Seq<MidiEvent>, k: u8)
    ensures
        note_ons(a + b, k) == note_ons(a, k) + note_ons(b, k),
        note_offs(a + b, k) == note_offs(a, k) + note_offs(b, k),
    decreases b.len(),
{
    if b.len() == 0 {
        assert(a + b =~= a);
    } else {
        assert((a + b).drop_last() =~= a + b.drop_last());
        counts_add(a, b.drop_last(), k);
    }
}

proof fn offs_match_voices(voices: Seq<PatternVoice>, frame: u64, k: u8)
    requires
        on_first_channel(voices),
    ensures
        note_ons(voices_off(voices, frame), k) == 0,
        note_offs(voices_off(voices, frame), k) == sounding(voices, k),
    decreases voices.len(),
{
    assert(0x80u8 | 0u8 == 0x80u8) by (bit_vector);
    if voices.len() > 0 {
        offs_match_voices(voices.drop_last(), frame, k);
        assert(voices_off(voices, frame).drop_last() =~= voices_off(voices.drop_last(), frame));
        assert(voices.last().channel == 0);
        assert(voices_off(voices, frame).last() == voice_off(voices.last(), frame));
    }
}

proof fn voices_split(voices: Seq<PatternVoice>, note: u8, k: u8)
    requires
        on_first_channel(voices),
    ensures
        sounding(voices, k) == sounding(voices_of(voices, note), k) + sounding(
            voices_except(voices, note),
            k,
        ),
        on_first_channel(voices_of(voices, note)),
        on_first_channel(voices_except(voices, note)),
    decreases voices.len(),
{
    reveal(Seq::filter);
    if voices.len() > 0 {
        let rest = voices.drop_last();
        assert(on_first_channel(rest)) by {
            assert forall|i: int| 0 <= i < rest.len() implies (#[trigger] rest[i]).channel == 0 by {
                assert(rest[i] == voices[i]);
            }
        }
        voices_split(rest, note, k);
        assert(voices.last() == voices[voices.len() - 1]);
        let last = voices.last();
        assert(voices_of(rest, note).push(last).drop_last() =~= voices_of(rest, note));
        assert(voices_except(rest, note).push(last).drop_last() =~= voices_except(rest, note));
    }
}

/// Output and voices keep up: each note that was sounding or was started is
/// still a voice, or has been sent a note-off.
pub open spec fn accounted(
    voices: Seq<PatternVoice>,
    out: Seq<MidiEvent>,
    before: nat,
    k: u8,
) -> bool {
    on_first_channel(voices) && sounding(voices, k) + note_offs(out, k) >= before + note_ons(out, k)
}

proof fn released_stays_accounted(p: Playback, frame: u64, before: nat, k: u8)
    requires
        accounted(p.voices, p.out, before, k),
    ensures
        accounted(all_released(p, frame).voices, all_released(p, frame).out, before, k),
{
    offs_match_voices(p.voices, frame, k);
    counts_add(p.out, voices_off(p.voices, frame), k);
}

proof fn scan_event_stays_accounted(s: Scan, ev: MidiEvent, before: nat, k: u8)
    requires
        accounted(s.voices, s.out, before, k),
    ensures
        accounted(scan_event(s, ev).voices, scan_event(s, ev).out, before, k),
{
    released_stays_accounted(Playback { voices: s.voices, out: s.out }, ev.0, before, k);
    if note_edge(ev) is Neither {
        let status = ev.1[0];
        assert(status == 0x90 ==> status & 0xF0 == 0x90) by (bit_vector);
        assert(status == 0x80 ==> status & 0xF0 == 0x80) by (bit_vector);
        assert(status_type(ev) == status & 0xF0);
        assert(s.out.push(ev).drop_last() =~= s.out);
    }
}

proof fn scan_stays_accounted(s: Scan, midi: Seq<MidiEvent>, before: nat, k: u8)
    requires
        accounted(s.voices, s.out, before, k),
    ensures
        accounted(scan_events(s, midi).voices, scan_events(s, midi).out, before, k),
    decreases midi.len(),
{
    if midi.len() > 0 {
        scan_stays_accounted(s, midi.drop_last(), before, k);
        scan_event_stays_accounted(scan_events(s, midi.drop_last()), midi.last(), before, k);
    }
}

proof fn play_event_stays_accounted(
    p: Playback,
    ev: PatternEvent,
    map: NoteMap,
    frame: u64,
    before: nat,
    k: u8,
)
    requires
        accounted(p.voices, p.out, before, k),
    ensures
        accounted(
            play_event(p, ev, map, frame).voices,
            play_event(p, ev, map, frame).out,
            before,
            k,
        ),
{
    let q = play_event(p, ev, map, frame);
    if ev.status == 0x90 {
        assert(q.out.drop_last() =~= p.out);
        assert(q.voices.drop_last() =~= p.voices);
    } else {
        let released = voices_of(p.voices, ev.note);
        voices_split(p.voices, ev.note, k);
        offs_match_voices(released, frame, k);
        counts_add(p.out, voices_off(released, frame), k);
        if released.len() == 0 {
            assert(q.out.drop_last() =~= p.out);
        }
    }
}

proof fn play_range_stays_accounted(
    p: Playback,
    events: Seq<PatternEvent>,
    n: nat,
    start: u64,
    end: u64,
    map: NoteMap,
    offset: u64,
    before: nat,
    k: u8,
)
    requires
        accounted(p.voices, p.out, before, k),
    ensures
        accounted(
            play_range(p, events, n, start, end, map, offset).voices,
            play_range(p, events, n, start, end, map, offset).out,
            before,
            k,
        ),
    decreases n,
{
    if n > 0 {
        play_range_stays_accounted(p, events, (n - 1) as nat, start, end, map, offset, before, k);
        let q = play_range(p, events, (n - 1) as nat, start, end, map, offset);
        let ev = events[n - 1];
        play_event_stays_accounted(q, ev, map, (ev.frame - start + offset) as u64, before, k);
    }
}

proof fn play_buffer_stays_accounted(
    p: Playback,
    events: Seq<PatternEvent>,
    length: u64,
    looping: bool,
    pos: u64,
    frames: int,
    map: NoteMap,
    before: nat,
    k: u8,
)
    requires
        accounted(p.voices, p.out, before, k),
    ensures
        ({
            let q = play_buffer(p, events, length, looping, pos, frames, map).0;
            accounted(q.voices, q.out, before, k)
        }),
{
    let n = events.len();
    let end = pos + frames;
    if end > length {
        let offset = (length - pos) as u64;
        let played = play_range(p, events, n, pos, length, map, 0);
        play_range_stays_accounted(p, events, n, pos, length, map, 0, before, k);
        released_stays_accounted(played, offset, before, k);
        let first = all_released(played, offset);
        let rest = (end - length) as u64;
        play_range_stays_accounted(first, events, n, 0, rest, map, offset, before, k);
    } else {
        play_range_stays_accounted(p, events, n, pos, end as u64, map, 0, before, k);
        let played = play_range(p, events, n, pos, end as u64, map, 0);
        released_stays_accounted(played, (frames - 1) as u64, before, k);
    }
}

/// Playback never forgets a sounding note: for every note, what was sounding
/// before a buffer plus what the buffer starts is at most what still sounds
/// afterwards plus what the buffer stops.
pub proof fn no_sounding_note_is_forgotten(
    p: PlayerModel,
    midi: Seq<MidiEvent>,
    frames: int,
    degrees: &[u8],
    k: u8,
)
    requires
        on_first_channel(p.active_voices),
    ensures
        ({
            let q = player_played(p, midi, frames, degrees);
            let out = playback_output(p, midi, frames, degrees);
            &&& on_first_channel(q.active_voices)
            &&& sounding(q.active_voices, k) + note_offs(out, k) >= sounding(p.active_voices, k)
                + note_ons(out, k)
        }),
{
    let before = sounding(p.active_voices, k);
    let start = scan_start(p);
    scan_stays_accounted(start, midi, before, k);
    let s = scan_events(start, midi);
    if s.trigger is Some {
        play_buffer_stays_accounted(
            Playback { voices: s.voices, out: s.out },
            p.events,
            p.length_samples,
            p.looping,
            s.pos,
            frames,
            note_map(p, s.trigger->0, degrees),
            before,
            k,
        );
    }
}

/// Once no key is held, nothing sounds on: the buffer that releases the last
/// key also releases every voice.
pub proof fn released_keys_end_all_voices(s: Scan, ev: MidiEvent)
    requires
        latest_key_leads(s.held, s.trigger),
        s.trigger is Some,
        scan_event(s, ev).trigger is None,
    ensures
        scan_event(s, ev).voices.len() == 0,
        scan_event(s, ev).out == s.out + voices_off(s.voices, ev.0),
{
}

// ---------------------------------------------------------------------------
// One buffer of playback
// ---------------------------------------------------------------------------

/// The messages that are no notes, in order.
pub open spec fn passing(midi: Seq<MidiEvent>) -> Seq<MidiEvent>
    decreases midi.len(),
{
    if midi.len() == 0 {
        Seq::empty()
    } else if note_edge(midi.last()) is Neither {
        passing(midi.drop_last()).push(midi.last())
    } else {
        passing(midi.drop_last())
    }
}

/// Every message lies inside a buffer.
pub open spec fn inside(midi: Seq<MidiEvent>, frames: int) -> bool {
    forall|i: int| 0 <= i < midi.len() ==> (#[trigger] midi[i]).0 < frames
}

/// Nothing sounds while no key triggers the pattern.
pub open spec fn silent_untriggered(trigger: Option<u8>, voices: Seq<PatternVoice>) -> bool {
    trigger is None ==> voices.len() == 0
}

/// A note is one that a pattern sounds under a mapping.
pub open spec fn in_pattern(events: Seq<PatternEvent>, map: NoteMap, note: u8) -> bool {
    exists|j: int| 0 <= j < events.len() && map.mapped((#[trigger] events[j]).note) == note
}

/// A message stops one of the voices.
pub open spec fn stops_voice(voices: Seq<PatternVoice>, ev: MidiEvent) -> bool {
    exists|j: int| 0 <= j < voices.len() && voice_off(#[trigger] voices[j], ev.0) == ev
}

/// A message is no note, or starts a note of the pattern, or stops a note of the
/// pattern or a voice that sounded before.
pub open spec fn played_or_passed(
    ev: MidiEvent,
    events: Seq<PatternEvent>,
    map: NoteMap,
    voices: Seq<PatternVoice>,
) -> bool {
    ||| note_edge(ev) is Neither
    ||| ev.1[0] == 0x90 && in_pattern(events, map, ev.1[1])
    ||| ev.1[0] == 0x80 && ev.1[2] == 0 && in_pattern(events, map, ev.1[1])
    ||| stops_voice(voices, ev)
}

/// Messages occur among others, unchanged and in order.
pub open spec fn occur_in_order(some: Seq<MidiEvent>, all: Seq<MidiEvent>) -> bool
    decreases all.len(),
{
    ||| some.len() == 0
    ||| all.len() > 0 && occur_in_order(some, all.drop_last())
    ||| all.len() > 0 && some.last() == all.last() && occur_in_order(
        some.drop_last(),
        all.drop_last(),
    )
}

proof fn order_grows(some: Seq<MidiEvent>, all: Seq<MidiEvent>, ev: MidiEvent)
    requires
        occur_in_order(some, all),
    ensures
        occur_in_order(some, all.push(ev)),
        occur_in_order(some.push(ev), all.push(ev)),
{
    assert(all.push(ev).drop_last() =~= all);
    assert(some.push(ev).drop_last() =~= some);
}

/// What playback has put out so far lies in the buffer, passes the messages that
/// are no notes, and otherwise is the pattern's doing. With all voices on the
/// first channel it holds no other such messages.
spec fn orderly(
    q: Playback,
    passed: Seq<MidiEvent>,
    frames: int,
    events: Seq<PatternEvent>,
    map: NoteMap,
    voices: Seq<PatternVoice>,
) -> bool {
    &&& occur_in_order(passed, q.out)
    &&& inside(q.out, frames)
    &&& forall|i: int|
        0 <= i < q.out.len() ==> played_or_passed(#[trigger] q.out[i], events, map, voices)
    &&& forall|i: int|
        0 <= i < q.voices.len() ==> voices.contains(#[trigger] q.voices[i]) || (
        q.voices[i].channel == 0 && in_pattern(events, map, q.voices[i].playing_note))
    &&& on_first_channel(voices) ==> on_first_channel(q.voices) && passing(q.out) == passed
}

proof fn pushed_passes(out: Seq<MidiEvent>, ev: MidiEvent)
    ensures
        passing(out.push(ev)) == (if note_edge(ev) is Neither {
            passing(out).push(ev)
        } else {
            passing(out)
        }),
{
    assert(out.push(ev).drop_last() =~= out);
}

proof fn notes_are_edges(ev: MidiEvent)
    requires
        ev.1[0] == 0x90 || ev.1[0] == 0x80,
    ensures
        note_edge(ev) !is Neither,
{
    let status = ev.1[0];
    assert(status == 0x90 ==> status & 0xF0 == 0x90) by (bit_vector);
    assert(status == 0x80 ==> status & 0xF0 == 0x80) by (bit_vector);
    assert(status_type(ev) == status & 0xF0);
}

/// Releasing some of the voices is orderly.
proof fn offs_are_orderly(
    q: Playback,
    off: Seq<PatternVoice>,
    frame: u64,
    passed: Seq<MidiEvent>,
    frames: int,
    events: Seq<PatternEvent>,
    map: NoteMap,
    voices: Seq<PatternVoice>,
)
    requires
        orderly(q, passed, frames, events, map, voices),
        frame < frames,
        forall|i: int| 0 <= i < off.len() ==> q.voices.contains(#[trigger] off[i]),
    ensures
        orderly(
            Playback { voices: q.voices, out: q.out + voices_off(off, frame) },
            passed,
            frames,
            events,
            map,
            voices,
        ),
    decreases off.len(),
{
    if off.len() == 0 {
        assert(q.out + voices_off(off, frame) =~= q.out);
    } else {
        let rest = off.drop_last();
        assert forall|i: int| 0 <= i < rest.len() implies q.voices.contains(#[trigger] rest[i]) by {
            assert(rest[i] == off[i]);
        }
        offs_are_orderly(q, rest, frame, passed, frames, events, map, voices);
        let v = off[off.len() - 1];
        assert(q.voices.contains(v));
        let at = choose|at: int| 0 <= at < q.voices.len() && q.voices[at] == v;
        let ev = voice_off(v, frame);
        assert(0x80u8 | 0u8 == 0x80u8) by (bit_vector);
        let done = q.out + voices_off(rest, frame);
        assert(q.out + voices_off(off, frame) =~= done.push(ev));
        order_grows(passed, done, ev);
        pushed_passes(done, ev);
        if on_first_channel(voices) {
            assert(q.voices[at].channel == 0);
            notes_are_edges(ev);
        }
        assert(played_or_passed(ev, events, map, voices)) by {
            if voices.contains(q.voices[at]) {
                let j = choose|j: int| 0 <= j < voices.len() && voices[j] == v;
                assert(voice_off(voices[j], ev.0) == ev);
            }
        }
    }
}

proof fn release_is_orderly(
    q: Playback,
    frame: u64,
    passed: Seq<MidiEvent>,
    frames: int,
    events: Seq<PatternEvent>,
    map: NoteMap,
    voices: Seq<PatternVoice>,
)
    requires
        orderly(q, passed, frames, events, map, voices),
        frame < frames,
    ensures
        orderly(all_released(q, frame), passed, frames, events, map, voices),
{
    offs_are_orderly(q, q.voices, frame, passed, frames, events, map, voices);
}

proof fn scan_event_is_orderly(
    s: Scan,
    ev: MidiEvent,
    passed: Seq<MidiEvent>,
    frames: int,
    events: Seq<PatternEvent>,
    map: NoteMap,
    voices: Seq<PatternVoice>,
)
    requires
        orderly(Playback { voices: s.voices, out: s.out }, passed, frames, events, map, voices),
        silent_untriggered(s.trigger, s.voices),
        ev.0 < frames,
    ensures
        ({
            let t = scan_event(s, ev);
            &&& orderly(
                Playback { voices: t.voices, out: t.out },
                if note_edge(ev) is Neither {
                    passed.push(ev)
                } else {
                    passed
                },
                frames,
                events,
                map,
                voices,
            )
            &&& silent_untriggered(t.trigger, t.voices)
            &&& t.pos == s.pos || t.pos == 0
        }),
{
    release_is_orderly(
        Playback { voices: s.voices, out: s.out },
        ev.0,
        passed,
        frames,
        events,
        map,
        voices,
    );
    pushed_passes(s.out, ev);
    order_grows(passed, s.out, ev);
}

proof fn scan_is_orderly(
    s: Scan,
    midi: Seq<MidiEvent>,
    frames: int,
    events: Seq<PatternEvent>,
    map: NoteMap,
)
    requires
        s.out.len() == 0,
        silent_untriggered(s.trigger, s.voices),
        inside(midi, frames),
    ensures
        ({
            let t = scan_events(s, midi);
            &&& orderly(
                Playback { voices: t.voices, out: t.out },
                passing(midi),
                frames,
                events,
                map,
                s.voices,
            )
            &&& silent_untriggered(t.trigger, t.voices)
            &&& t.pos == s.pos || t.pos == 0
        }),
    decreases midi.len(),
{
    if midi.len() > 0 {
        let rest = midi.drop_last();
        assert forall|i: int| 0 <= i < rest.len() implies (#[trigger] rest[i]).0 < frames by {
            assert(rest[i] == midi[i]);
        }
        scan_is_orderly(s, rest, frames, events, map);
        assert(midi.last() == midi[midi.len() - 1]);
        scan_event_is_orderly(
            scan_events(s, rest),
            midi.last(),
            passing(rest),
            frames,
            events,
            map,
            s.voices,
        );
    }
}

proof fn filtered_voices_are_voices(voices: Seq<PatternVoice>, note: u8)
    ensures
        forall|i: int|
            0 <= i < voices_of(voices, note).len() ==> voices.contains(
                #[trigger] voices_of(voices, note)[i],
            ),
        forall|i: int|
            0 <= i < voices_except(voices, note).len() ==> voices.contains(
                #[trigger] voices_except(voices, note)[i],
            ),
    decreases voices.len(),
{
    reveal(Seq::filter);
    if voices.len() > 0 {
        let rest = voices.drop_last();
        filtered_voices_are_voices(rest, note);
        assert forall|v: PatternVoice| #[trigger] rest.contains(v) implies voices.contains(v) by {
            let i = choose|i: int| 0 <= i < rest.len() && rest[i] == v;
            assert(voices[i] == v);
        }
        assert(voices.contains(voices.last())) by {
            assert(voices[voices.len() - 1] == voices.last());
        }
        assert forall|i: int| 0 <= i < voices_of(voices, note).len() implies voices.contains(
            #[trigger] voices_of(voices, note)[i],
        ) by {
            if i < voices_of(rest, note).len() {
                assert(voices_of(voices, note)[i] == voices_of(rest, note)[i]);
            }
        }
        assert forall|i: int| 0 <= i < voices_except(voices, note).len() implies voices.contains(
            #[trigger] voices_except(voices, note)[i],
        ) by {
            if i < voices_except(rest, note).len() {
                assert(voices_except(voices, note)[i] == voices_except(rest, note)[i]);
            }
        }
    }
}

proof fn play_event_is_orderly(
    q: Playback,
    j: int,
    frame: u64,
    passed: Seq<MidiEvent>,
    frames: int,
    events: Seq<PatternEvent>,
    map: NoteMap,
    voices: Seq<PatternVoice>,
)
    requires
        orderly(q, passed, frames, events, map, voices),
        0 <= j < events.len(),
        frame < frames,
    ensures
        orderly(play_event(q, events[j], map, frame), passed, frames, events, map, voices),
{
    let ev = events[j];
    let note = map.mapped(ev.note);
    assert(in_pattern(events, map, note));
    let on: MidiEvent = (frame, [0x90u8, note, ev.velocity]);
    let off: MidiEvent = (frame, [0x80u8, note, 0u8]);
    notes_are_edges(on);
    notes_are_edges(off);
    pushed_passes(q.out, on);
    pushed_passes(q.out, off);
    order_grows(passed, q.out, on);
    order_grows(passed, q.out, off);
    if ev.status != 0x90 {
        let released = voices_of(q.voices, ev.note);
        let kept = voices_except(q.voices, ev.note);
        filtered_voices_are_voices(q.voices, ev.note);
        offs_are_orderly(q, released, frame, passed, frames, events, map, voices);
        assert forall|i: int| 0 <= i < kept.len() implies {
            &&& voices.contains(#[trigger] kept[i]) || (kept[i].channel == 0 && in_pattern(
                events,
                map,
                kept[i].playing_note,
            ))
            &&& on_first_channel(voices) ==> kept[i].channel == 0
        } by {
            assert(q.voices.contains(kept[i]));
            let k = choose|k: int| 0 <= k < q.voices.len() && q.voices[k] == kept[i];
            assert(voices.contains(q.voices[k]) || q.voices[k].channel == 0);
        }
    }
}

proof fn play_range_is_orderly(
    q: Playback,
    n: nat,
    start: u64,
    end: u64,
    offset: u64,
    passed: Seq<MidiEvent>,
    frames: int,
    events: Seq<PatternEvent>,
    map: NoteMap,
    voices: Seq<PatternVoice>,
)
    requires
        orderly(q, passed, frames, events, map, voices),
        n <= events.len(),
        end - start + offset <= frames <= u64::MAX,
    ensures
        orderly(
            play_range(q, events, n, start, end, map, offset),
            passed,
            frames,
            events,
            map,
            voices,
        ),
    decreases n,
{
    if n > 0 {
        play_range_is_orderly(
            q,
            (n - 1) as nat,
            start,
            end,
            offset,
            passed,
            frames,
            events,
            map,
            voices,
        );
        let before = play_range(q, events, (n - 1) as nat, start, end, map, offset);
        let ev = events[n - 1];
        if start <= ev.frame < end {
            play_event_is_orderly(
                before,
                n - 1,
                (ev.frame - start + offset) as u64,
                passed,
                frames,
                events,
                map,
                voices,
            );
        }
    }
}

proof fn play_buffer_is_orderly(
    q: Playback,
    length: u64,
    looping: bool,
    pos: u64,
    passed: Seq<MidiEvent>,
    frames: int,
    events: Seq<PatternEvent>,
    map: NoteMap,
    voices: Seq<PatternVoice>,
)
    requires
        orderly(q, passed, frames, events, map, voices),
        0 < frames <= length,
        pos <= length,
    ensures
        orderly(
            play_buffer(q, events, length, looping, pos, frames, map).0,
            passed,
            frames,
            events,
            map,
            voices,
        ),
        play_buffer(q, events, length, looping, pos, frames, map).1 <= length,
{
    let n = events.len();
    let end = pos + frames;
    if end > length {
        let offset = (length - pos) as u64;
        play_range_is_orderly(q, n, pos, length, 0, passed, frames, events, map, voices);
        let played = play_range(q, events, n, pos, length, map, 0);
        release_is_orderly(played, offset, passed, frames, events, map, voices);
        let first = all_released(played, offset);
        let rest = (end - length) as u64;
        play_range_is_orderly(first, n, 0, rest, offset, passed, frames, events, map, voices);
    } else {
        play_range_is_orderly(q, n, pos, end as u64, 0, passed, frames, events, map, voices);
        let played = play_range(q, events, n, pos, end as u64, map, 0);
        release_is_orderly(played, (frames - 1) as u64, passed, frames, events, map, voices);
    }
}

/// The mapping under which a buffer plays a pattern: that of the key which leads
/// once the buffer's keys have been seen.
pub open spec fn buffer_map(p: PlayerModel, midi: Seq<MidiEvent>, degrees: &[u8]) -> NoteMap {
    note_map(p, scan_events(scan_start(p), midi).trigger->0, degrees)
}

/// A buffer no longer than the pattern plays in order. The position stays within
/// the pattern, and everything that comes out lies inside the buffer. Messages
/// that are no notes pass, unchanged and in order; incoming notes are swallowed,
/// so that each note that comes out is the pattern's, or stops a voice. Without a
/// key to trigger it nothing sounds on. While all voices are on the first channel,
/// as they are in every player (see `voices_stay_on_first_channel`), the messages
/// that come out and are no notes are just those that came in.
pub proof fn playback_is_orderly(
    p: PlayerModel,
    midi: Seq<MidiEvent>,
    frames: int,
    degrees: &[u8],
)
    requires
        0 < frames <= p.length_samples,
        p.playback_pos <= p.length_samples,
        silent_untriggered(p.trigger_note, p.active_voices),
        inside(midi, frames),
    ensures
        ({
            let q = player_played(p, midi, frames, degrees);
            let out = playback_output(p, midi, frames, degrees);
            &&& q.playback_pos <= q.length_samples == p.length_samples
            &&& inside(out, frames)
            &&& occur_in_order(passing(midi), out)
            &&& forall|i: int|
                0 <= i < out.len() ==> played_or_passed(
                    #[trigger] out[i],
                    p.events,
                    buffer_map(p, midi, degrees),
                    p.active_voices,
                )
            &&& silent_untriggered(q.trigger_note, q.active_voices)
            &&& on_first_channel(p.active_voices) ==> passing(out) == passing(midi)
        }),
{
    let map = buffer_map(p, midi, degrees);
    let s = scan_events(scan_start(p), midi);
    scan_is_orderly(scan_start(p), midi, frames, p.events, map);
    if s.trigger is Some {
        play_buffer_is_orderly(
            Playback { voices: s.voices, out: s.out },
            p.length_samples,
            p.looping,
            s.pos,
            passing(midi),
            frames,
            p.events,
            map,
            p.active_voices,
        );
    }
}

proof fn scan_event_keeps_silence(s: Scan, ev: MidiEvent)
    requires
        silent_untriggered(s.trigger, s.voices),
    ensures
        silent_untriggered(scan_event(s, ev).trigger, scan_event(s, ev).voices),
{
}

proof fn scan_keeps_silence(s: Scan, midi: Seq<MidiEvent>)
    requires
        silent_untriggered(s.trigger, s.voices),
    ensures
        silent_untriggered(scan_events(s, midi).trigger, scan_events(s, midi).voices),
    decreases midi.len(),
{
    if midi.len() > 0 {
        scan_keeps_silence(s, midi.drop_last());
        scan_event_keeps_silence(scan_events(s, midi.drop_last()), midi.last());
    }
}

/// No note hangs: whatever a player is doing, after each buffer nothing sounds
/// unless a key triggers it.
pub proof fn no_note_hangs(
    p: PlayerModel,
    midi: Seq<MidiEvent>,
    frames: int,
    degrees: &[u8],
    length: u64,
)
    requires
        silent_untriggered(p.trigger_note, p.active_voices),
    ensures
        ({
            let q = player_processed(p, midi, frames, degrees, length);
            silent_untriggered(q.trigger_note, q.active_voices)
        }),
{
    scan_keeps_silence(scan_start(p), midi);
}

/// Neither does an edit of the player leave a note hanging.
pub proof fn edits_leave_no_note_hanging(
    p: PlayerModel,
    from: PlayerModel,
    inst: usize,
    length: u64,
)
    requires
        silent_untriggered(p.trigger_note, p.active_voices),
    ensures
        ({
            let started = recording_started(p, inst, length);
            let stopped = recording_stopped(p, length);
            let set = pattern_set(p, from.events, length, from.base_note, from.in_key);
            let cleared = pattern_cleared(p);
            let swapped = pattern_taken(p, from);
            &&& silent_untriggered(started.trigger_note, started.active_voices)
            &&& silent_untriggered(stopped.trigger_note, stopped.active_voices)
            &&& silent_untriggered(set.trigger_note, set.active_voices)
            &&& silent_untriggered(cleared.trigger_note, cleared.active_voices)
            &&& silent_untriggered(swapped.trigger_note, swapped.active_voices)
        }),
{
}

/// A new player has no voices, and nothing that is done with a player moves them
/// off the first channel: neither a buffer, whatever the player is doing, nor a
/// recording, another pattern, none, or that of another player.
pub proof fn voices_stay_on_first_channel(
    p: PlayerModel,
    from: PlayerModel,
    midi: Seq<MidiEvent>,
    frames: int,
    degrees: &[u8],
    inst: usize,
    length: u64,
)
    requires
        on_first_channel(p.active_voices),
    ensures
        on_first_channel(fresh_player(p.sample_rate).active_voices),
        on_first_channel(player_processed(p, midi, frames, degrees, length).active_voices),
        on_first_channel(recording_started(p, inst, length).active_voices),
        on_first_channel(recording_stopped(p, length).active_voices),
        on_first_channel(
            pattern_set(p, from.events, length, from.base_note, from.in_key).active_voices,
        ),
        on_first_channel(pattern_cleared(p).active_voices),
        on_first_channel(pattern_taken(p, from).active_voices),
{
    no_sounding_note_is_forgotten(p, midi, frames, degrees, 0);
}

// ---------------------------------------------------------------------------
// Transposition
// ---------------------------------------------------------------------------

/// Triggering the base note plays the pattern's own notes.
pub proof fn base_note_plays_pattern_unchanged(base: u8, note: u8)
    requires
        note <= 127,
    ensures
        NoteMap::Chromatic((base - base) as i16).mapped(note) == note,
{
}

/// Chromatic transposition keeps intervals, as long as neither note is moved
/// out of the MIDI range.
pub proof fn chromatic_keeps_intervals(transpose: i16, a: u8, b: u8)
    requires
        0 <= a + transpose <= 127,
        0 <= b + transpose <= 127,
    ensures
        NoteMap::Chromatic(transpose).mapped(a) - NoteMap::Chromatic(transpose).mapped(b) == a - b,
{
}

// ---------------------------------------------------------------------------
// Recording
// ---------------------------------------------------------------------------

/// The note-on at `i` comes before all others.
pub open spec fn opens_with(events: Seq<PatternEvent>, i: int) -> bool {
    &&& 0 <= i < events.len()
    &&& events[i].status == 0x90
    &&& forall|j: int| 0 <= j < i ==> (#[trigger] events[j]).status != 0x90
}

proof fn first_note_is_first(events: Seq<PatternEvent>)
    ensures
        first_note(events) is None ==> forall|i: int|
            0 <= i < events.len() ==> (#[trigger] events[i]).status != 0x90,
        first_note(events) is Some ==> exists|i: int|
            #[trigger] opens_with(events, i) && events[i].note == first_note(events)->0,
    decreases events.len(),
{
    if events.len() > 0 {
        let rest = events.drop_last();
        let last = events.len() - 1;
        first_note_is_first(rest);
        assert(forall|i: int| 0 <= i < last ==> rest[i] == #[trigger] events[i]);
        match first_note(rest) {
            Some(n) => {
                let i = choose|i: int| #[trigger] opens_with(rest, i) && rest[i].note == n;
                assert(events[i] == rest[i]);
                assert(opens_with(events, i));
            },
            None => {
                assert(forall|i: int| 0 <= i < last ==> (#[trigger] rest[i]).status != 0x90);
                assert(forall|i: int| 0 <= i < last ==> (#[trigger] events[i]).status != 0x90);
                if events[last].status == 0x90 {
                    assert(opens_with(events, last));
                }
            },
        }
    }
}

proof fn kept_events_lie_inside(events: Seq<PatternEvent>, length: u64)
    ensures
        forall|i: int|
            0 <= i < events_before(events, length).len() ==> (#[trigger] events_before(
                events,
                length,
            )[i]).frame < length,
    decreases events.len(),
{
    reveal(Seq::filter);
    if events.len() > 0 {
        kept_events_lie_inside(events.drop_last(), length);
    }
}

/// A finished recording holds events inside its length only, and its base note
/// is the first note-on among them.
pub proof fn finished_recording_is_well_formed(p: PlayerModel, length: u64)
    ensures
        ({
            let q = recording_finalized(p, length);
            &&& forall|i: int| 0 <= i < q.events.len() ==> (#[trigger] q.events[i]).frame < length
            &&& q.base_note is None ==> forall|i: int|
                0 <= i < q.events.len() ==> (#[trigger] q.events[i]).status != 0x90
            &&& q.base_note is Some ==> exists|i: int|
                #[trigger] opens_with(q.events, i) && q.events[i].note == q.base_note->0
        }),
{
    kept_events_lie_inside(p.recording_events, length);
    let events = events_before(p.recording_events, length);
    first_note_is_first(events);
    let q = recording_finalized(p, length);
    assert(forall|i: int| 0 <= i < q.events.len() ==> (#[trigger] q.events[i]).frame < length);
    assert(q.events == events && q.base_note == first_note(events));
    if q.base_note is None {
        assert(forall|i: int| 0 <= i < events.len() ==> (#[trigger] events[i]).status != 0x90);
    }
}

} // verus!
