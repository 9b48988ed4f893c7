//! Per-lane pattern recorder and player.
//!
//! A pattern is a short recording of notes. While a key is held the player
//! loops it, transposed from the pattern's base note to the held key; keys
//! pressed later take over from keys pressed earlier.

use vstd::prelude::*;

use crate::event::{classify, note_edge, MidiEvent, NoteEdge};
use crate::scalar::F32Bits;

verus! {

/// Count-in length, in beats.
pub const COUNT_IN_BEATS: u64 = 4;

/// A single recorded note event of a pattern.
#[derive(Clone, Copy, Debug, PartialEq, Eq, Structural)]
pub struct PatternEvent {
    /// Offset from the pattern start, in samples.
    pub frame: u64,
    /// 0x90 for a note-on, 0x80 for a note-off.
    pub status: u8,
    /// Note number before transposition.
    pub note: u8,
    pub velocity: u8,
}

/// A recorded pattern: note events and a fixed length.
#[derive(Debug)]
pub struct Pattern {
    pub events: Vec<PatternEvent>,
    /// Total length in samples.
    pub length_samples: u64,
}

/// What is sent to the user interface when a recording completes.
#[derive(Debug)]
pub struct PatternNotification {
    pub inst: usize,
    pub base_note: Option<u8>,
    pub length_beats: F32Bits,
    pub looping: bool,
    pub enabled: bool,
    /// (frame, status, note, velocity)
    pub events: Vec<(u64, u8, u8, u8)>,
}

/// What a notification holds.
pub struct NotificationModel {
    pub inst: usize,
    pub base_note: Option<u8>,
    pub length_beats: F32Bits,
    pub looping: bool,
    pub enabled: bool,
    pub events: Seq<(u64, u8, u8, u8)>,
}

impl View for PatternNotification {
    type V = NotificationModel;

    open spec fn view(&self) -> NotificationModel {
        NotificationModel {
            inst: self.inst,
            base_note: self.base_note,
            length_beats: self.length_beats,
            looping: self.looping,
            enabled: self.enabled,
            events: self.events@,
        }
    }
}

/// A voice that pattern playback is sounding.
#[derive(Clone, Copy, Debug, PartialEq, Eq, Structural)]
pub struct PatternVoice {
    /// The pattern's own note.
    pub pattern_note: u8,
    /// The transposed note that is sounding.
    pub playing_note: u8,
    /// MIDI channel of the note.
    pub channel: u8,
}

/// How pattern notes map to output notes during transposed playback.
#[derive(Clone, Copy, Debug)]
pub enum NoteMap<'a> {
    /// Shift every note by a fixed number of semitones, which keeps intervals.
    Chromatic(i16),
    /// Look every note up in the current scale's transposition from the base
    /// note to the trigger note, which keeps notes in the scale.
    InKey { degrees: &'a [u8] },
}

/// The note clamped to the MIDI range.
pub open spec fn clamp_note(n: int) -> u8 {
    if n < 0 {
        0
    } else if n > 127 {
        127
    } else {
        n as u8
    }
}

impl<'a> NoteMap<'a> {
    /// The mapping covers every note, and a shift stays in `i16` range.
    pub open spec fn covers(self, note: u8) -> bool {
        match self {
            NoteMap::Chromatic(transpose) => i16::MIN <= note + transpose <= i16::MAX,
            NoteMap::InKey { degrees } => note < degrees@.len(),
        }
    }

    /// The output note.
    pub open spec fn mapped(self, note: u8) -> u8 {
        match self {
            NoteMap::Chromatic(transpose) => clamp_note(note + transpose),
            NoteMap::InKey { degrees } => degrees@[note as int],
        }
    }

    /// The output note for a pattern note.
    pub fn map(&self, note: u8) -> (out: u8)
        requires
            self.covers(note),
        ensures
            out == self.mapped(note),
    {
        match *self {
            NoteMap::Chromatic(transpose) => {
                let n: i16 = note as i16 + transpose;
                if n < 0 {
                    0
                } else if n > 127 {
                    127
                } else {
                    n as u8
                }
            },
            NoteMap::InKey { degrees } => degrees[note as usize],
        }
    }
}

/// Per-lane pattern recorder and player.
#[derive(Debug)]
pub struct PatternPlayer {
    pub pattern: Pattern,
    pub enabled: bool,
    pub recording: bool,
    /// Count-in phase: the metronome ticks but no recording happens yet.
    pub counting_in: bool,
    /// Playback position in samples within the pattern.
    pub playback_pos: u64,
    /// Samples since the count-in or the recording started.
    pub record_pos: u64,
    pub sample_rate: F32Bits,
    /// The first note-on of the pattern, the reference for transposition.
    pub base_note: Option<u8>,
    /// The held note that triggers playback.
    pub trigger_note: Option<u8>,
    /// All held notes, oldest first.
    pub held_notes: Vec<u8>,
    pub active_voices: Vec<PatternVoice>,
    pub recording_events: Vec<PatternEvent>,
    pub length_beats: F32Bits,
    /// Whether the pattern starts over at its end.
    pub looping: bool,
    /// Whether playback transposes by scale degrees instead of semitones.
    pub in_key: bool,
    pub bpm: F32Bits,
    /// Whether somebody listens for completed recordings.
    pub notifies: bool,
    /// The lane's index, for notifications.
    pub inst_index: usize,
    /// Samples since the start of the count-in.
    pub metronome_pos: u64,
    pub beat_length_samples: u64,
    pub click_phase: F32Bits,
    /// Remaining samples of the current click.
    pub click_remaining: u32,
    pub click_is_downbeat: bool,
}

/// What a player holds.
#[verifier::ext_equal]
pub struct PlayerModel {
    pub events: Seq<PatternEvent>,
    pub length_samples: u64,
    pub enabled: bool,
    pub recording: bool,
    pub counting_in: bool,
    pub playback_pos: u64,
    pub record_pos: u64,
    pub sample_rate: F32Bits,
    pub base_note: Option<u8>,
    pub trigger_note: Option<u8>,
    pub held_notes: Seq<u8>,
    pub active_voices: Seq<PatternVoice>,
    pub recording_events: Seq<PatternEvent>,
    pub length_beats: F32Bits,
    pub looping: bool,
    pub in_key: bool,
    pub bpm: F32Bits,
    pub notifies: bool,
    pub inst_index: usize,
    pub metronome_pos: u64,
    pub beat_length_samples: u64,
    pub click_phase: F32Bits,
    pub click_remaining: u32,
    pub click_is_downbeat: bool,
}

impl View for PatternPlayer {
    type V = PlayerModel;

    open spec fn view(&self) -> PlayerModel {
        PlayerModel {
            events: self.pattern.events@,
            length_samples: self.pattern.length_samples,
            enabled: self.enabled,
            recording: self.recording,
            counting_in: self.counting_in,
            playback_pos: self.playback_pos,
            record_pos: self.record_pos,
            sample_rate: self.sample_rate,
            base_note: self.base_note,
            trigger_note: self.trigger_note,
            held_notes: self.held_notes@,
            active_voices: self.active_voices@,
            recording_events: self.recording_events@,
            length_beats: self.length_beats,
            looping: self.looping,
            in_key: self.in_key,
            bpm: self.bpm,
            notifies: self.notifies,
            inst_index: self.inst_index,
            metronome_pos: self.metronome_pos,
            beat_length_samples: self.beat_length_samples,
            click_phase: self.click_phase,
            click_remaining: self.click_remaining,
            click_is_downbeat: self.click_is_downbeat,
        }
    }
}

// ---------------------------------------------------------------------------
// Triggering
// ---------------------------------------------------------------------------

/// The part of a player that incoming keys change, and what they put out.
#[verifier::ext_equal]
pub struct Scan {
    pub held: Seq<u8>,
    pub trigger: Option<u8>,
    pub pos: u64,
    pub voices: Seq<PatternVoice>,
    pub out: Seq<MidiEvent>,
}

/// The note-off of a voice.
pub open spec fn voice_off(voice: PatternVoice, frame: u64) -> MidiEvent {
    (frame, [0x80u8 | voice.channel, voice.playing_note, 0u8])
}

/// Note-offs for voices, in order.
pub open spec fn voices_off(voices: Seq<PatternVoice>, frame: u64) -> Seq<MidiEvent> {
    Seq::new(voices.len(), |i: int| voice_off(voices[i], frame))
}

/// The held keys without `note`.
pub open spec fn keys_without(held: Seq<u8>, note: u8) -> Seq<u8> {
    held.filter(|k: u8| k != note)
}

/// The effect of one incoming message on the trigger.
pub open spec fn scan_event(s: Scan, ev: MidiEvent) -> Scan {
    let note = ev.1[1];
    match note_edge(ev) {
        NoteEdge::On => {
            let switch = s.trigger is Some && s.trigger != Some(note);
            Scan {
                held: s.held.push(note),
                trigger: Some(note),
                pos: 0,
                voices: if switch {
                    Seq::empty()
                } else {
                    s.voices
                },
                out: if switch {
                    s.out + voices_off(s.voices, ev.0)
                } else {
                    s.out
                },
            }
        },
        NoteEdge::Off => {
            let held = keys_without(s.held, note);
            if s.trigger == Some(note) {
                Scan {
                    held,
                    trigger: if held.len() > 0 {
                        Some(held.last())
                    } else {
                        None
                    },
                    pos: if held.len() > 0 {
                        0
                    } else {
                        s.pos
                    },
                    voices: Seq::empty(),
                    out: s.out + voices_off(s.voices, ev.0),
                }
            } else {
                Scan { held, ..s }
            }
        },
        // Controllers, pitch bend and the like pass through.
        NoteEdge::Neither => Scan { out: s.out.push(ev), ..s },
    }
}

/// The effect of a buffer's messages on the trigger.
pub open spec fn scan_events(s: Scan, midi: Seq<MidiEvent>) -> Scan
    decreases midi.len(),
{
    if midi.len() == 0 {
        s
    } else {
        scan_event(scan_events(s, midi.drop_last()), midi.last())
    }
}

/// The scan state of a player before it sees a buffer.
pub open spec fn scan_start(p: PlayerModel) -> Scan {
    Scan {
        held: p.held_notes,
        trigger: p.trigger_note,
        pos: p.playback_pos,
        voices: p.active_voices,
        out: Seq::empty(),
    }
}

// ---------------------------------------------------------------------------
// Emitting pattern events
// ---------------------------------------------------------------------------

/// Voices and output of a playback pass.
#[verifier::ext_equal]
pub struct Playback {
    pub voices: Seq<PatternVoice>,
    pub out: Seq<MidiEvent>,
}

/// The voices that sound a pattern note.
pub open spec fn voices_of(voices: Seq<PatternVoice>, note: u8) -> Seq<PatternVoice> {
    voices.filter(|v: PatternVoice| v.pattern_note == note)
}

/// The voices that do not sound a pattern note.
pub open spec fn voices_except(voices: Seq<PatternVoice>, note: u8) -> Seq<PatternVoice> {
    voices.filter(|v: PatternVoice| v.pattern_note != note)
}

/// One pattern event played at output frame `frame`. A note-off releases what
/// the matching voices are actually sounding.
pub open spec fn play_event(
    p: Playback,
    ev: PatternEvent,
    map: NoteMap,
    frame: u64,
) -> Playback {
    if ev.status == 0x90 {
        let note = map.mapped(ev.note);
        Playback {
            voices: p.voices.push(
                PatternVoice { pattern_note: ev.note, playing_note: note, channel: 0 },
            ),
            out: p.out.push((frame, [0x90u8, note, ev.velocity])),
        }
    } else {
        let released = voices_of(p.voices, ev.note);
        Playback {
            voices: voices_except(p.voices, ev.note),
            out: if released.len() > 0 {
                p.out + voices_off(released, frame)
            } else {
                p.out.push((frame, [0x80u8, map.mapped(ev.note), 0u8]))
            },
        }
    }
}

/// The first `n` pattern events, those in `[start, end)` played with their
/// frames counted from `start` and moved by `offset`.
pub open spec fn play_range(
    p: Playback,
    events: Seq<PatternEvent>,
    n: nat,
    start: u64,
    end: u64,
    map: NoteMap,
    offset: u64,
) -> Playback
    decreases n,
{
    if n == 0 {
        p
    } else {
        let before = play_range(p, events, (n - 1) as nat, start, end, map, offset);
        let ev = events[n - 1];
        if start <= ev.frame < end {
            play_event(before, ev, map, (ev.frame - start + offset) as u64)
        } else {
            before
        }
    }
}

/// Every voice released at `frame`.
pub open spec fn all_released(p: Playback, frame: u64) -> Playback {
    Playback { voices: Seq::empty(), out: p.out + voices_off(p.voices, frame) }
}

/// One buffer of pattern playback from position `pos`, and the position after
/// it.
pub open spec fn play_buffer(
    p: Playback,
    events: Seq<PatternEvent>,
    length: u64,
    looping: bool,
    pos: u64,
    frames: int,
    map: NoteMap,
) -> (Playback, u64) {
    let n = events.len();
    let end = pos + frames;
    if end > length {
        let offset = (length - pos) as u64;
        let first = all_released(play_range(p, events, n, pos, length, map, 0), offset);
        if looping {
            let rest = (end - length) as u64;
            (play_range(first, events, n, 0, rest, map, offset), rest)
        } else {
            (first, length)
        }
    } else {
        let played = play_range(p, events, n, pos, end as u64, map, 0);
        if end == length {
            (
                all_released(played, (frames - 1) as u64),
                if looping {
                    0
                } else {
                    length
                },
            )
        } else {
            (played, end as u64)
        }
    }
}

/// The note mapping of a player whose trigger is `trigger`.
pub open spec fn note_map(p: PlayerModel, trigger: u8, degrees: &[u8]) -> NoteMap {
    if p.in_key {
        NoteMap::InKey { degrees }
    } else {
        NoteMap::Chromatic((trigger - p.base_note->0) as i16)
    }
}

/// A player after a buffer of playback.
pub open spec fn player_played(
    p: PlayerModel,
    midi: Seq<MidiEvent>,
    frames: int,
    degrees: &[u8],
) -> PlayerModel {
    let s = scan_events(scan_start(p), midi);
    let scanned = PlayerModel {
        held_notes: s.held,
        trigger_note: s.trigger,
        playback_pos: s.pos,
        active_voices: s.voices,
        ..p
    };
    if s.trigger is Some && p.length_samples > 0 {
        let (played, pos) = play_buffer(
            Playback { voices: s.voices, out: s.out },
            p.events,
            p.length_samples,
            p.looping,
            s.pos,
            frames,
            note_map(p, s.trigger->0, degrees),
        );
        PlayerModel { active_voices: played.voices, playback_pos: pos, ..scanned }
    } else {
        scanned
    }
}

/// What a buffer of playback puts out.
pub open spec fn playback_output(
    p: PlayerModel,
    midi: Seq<MidiEvent>,
    frames: int,
    degrees: &[u8],
) -> Seq<MidiEvent> {
    let s = scan_events(scan_start(p), midi);
    if s.trigger is Some && p.length_samples > 0 {
        play_buffer(
            Playback { voices: s.voices, out: s.out },
            p.events,
            p.length_samples,
            p.looping,
            s.pos,
            frames,
            note_map(p, s.trigger->0, degrees),
        ).0.out
    } else {
        s.out
    }
}

/// Positions of a playback buffer stay in `u64` range: nothing overflows, and
/// no frame lies before the buffer.
pub open spec fn playback_fits(p: PlayerModel, midi: Seq<MidiEvent>, frames: int) -> bool {
    let s = scan_events(scan_start(p), midi);
    s.trigger is Some && p.length_samples > 0 ==> {
        &&& s.pos + frames <= u64::MAX
        &&& s.pos + frames > p.length_samples ==> s.pos <= p.length_samples || (!p.looping
            && s.voices.len() == 0)
        &&& frames == 0 && s.pos == p.length_samples ==> s.voices.len() == 0
    }
}

/// An empty range plays nothing.
pub proof fn empty_range_is_silent(
    p: Playback,
    events: Seq<PatternEvent>,
    n: nat,
    start: u64,
    end: u64,
    map: NoteMap,
    offset: u64,
)
    requires
        start >= end,
    ensures
        play_range(p, events, n, start, end, map, offset) == p,
    decreases n,
{
    if n > 0 {
        empty_range_is_silent(p, events, (n - 1) as nat, start, end, map, offset);
    }
}

// ---------------------------------------------------------------------------
// Executable helpers
// ---------------------------------------------------------------------------

fn release_voices(voices: &mut Vec<PatternVoice>, frame: u64, out: &mut Vec<MidiEvent>)
    ensures
        final(voices)@ == Seq::<PatternVoice>::empty(),
        final(out)@ == old(out)@ + voices_off(old(voices)@, frame),
{
    let ghost before = out@;
    let mut i: usize = 0;
    while i < voices.len()
        invariant
            i <= voices.len(),
            out@ == before + voices_off(voices@, frame).take(i as int),
        decreases voices.len() - i,
    {
        out.push((frame, [0x80 | voices[i].channel, voices[i].playing_note, 0]));
        assert(voices_off(voices@, frame).take(i + 1) =~= voices_off(voices@, frame).take(
            i as int,
        ).push(voice_off(voices@[i as int], frame)));
        assert(out@ =~= before + voices_off(voices@, frame).take(i + 1));
        i += 1;
    }
    assert(voices_off(voices@, frame).take(voices@.len() as int) =~= voices_off(voices@, frame));
    voices.clear();
}

fn drop_key(held: &mut Vec<u8>, note: u8)
    ensures
        final(held)@ == keys_without(old(held)@, note),
{
    let ghost before = held@;
    let mut kept: Vec<u8> = Vec::new();
    let mut i: usize = 0;
    proof {
        reveal(Seq::filter);
    }
    while i < held.len()
        invariant
            held@ == before,
            i <= held.len(),
            kept@ == keys_without(before.take(i as int), note),
        decreases held.len() - i,
    {
        proof {
            reveal(Seq::filter);
            assert(before.take(i + 1).drop_last() =~= before.take(i as int));
        }
        if held[i] != note {
            kept.push(held[i]);
        }
        i += 1;
    }
    assert(before.take(before.len() as int) =~= before);
    *held = kept;
}

/// Release the voices of one pattern note; says whether there were any.
fn release_note(
    voices: &mut Vec<PatternVoice>,
    note: u8,
    frame: u64,
    out: &mut Vec<MidiEvent>,
) -> (released: bool)
    ensures
        final(voices)@ == voices_except(old(voices)@, note),
        final(out)@ == old(out)@ + voices_off(voices_of(old(voices)@, note), frame),
        released == (voices_of(old(voices)@, note).len() > 0),
{
    let ghost before = out@;
    let ghost all = voices@;
    let mut kept: Vec<PatternVoice> = Vec::new();
    let mut released: bool = false;
    let mut i: usize = 0;
    proof {
        reveal(Seq::filter);
        assert(before + voices_off(voices_of(all.take(0), note), frame) =~= before);
    }
    while i < voices.len()
        invariant
            voices@ == all,
            i <= voices.len(),
            kept@ == voices_except(all.take(i as int), note),
            out@ == before + voices_off(voices_of(all.take(i as int), note), frame),
            released == (voices_of(all.take(i as int), note).len() > 0),
        decreases voices.len() - i,
    {
        let v: PatternVoice = voices[i];
        let ghost sounding = voices_of(all.take(i as int), note);
        proof {
            reveal(Seq::filter);
            assert(all.take(i + 1).drop_last() =~= all.take(i as int));
        }
        if v.pattern_note == note {
            out.push((frame, [0x80 | v.channel, v.playing_note, 0]));
            released = true;
            assert(voices_off(sounding.push(v), frame) =~= voices_off(sounding, frame).push(
                voice_off(v, frame),
            ));
            assert(out@ =~= before + voices_off(sounding.push(v), frame));
        } else {
            kept.push(v);
        }
        i += 1;
    }
    assert(all.take(all.len() as int) =~= all);
    *voices = kept;
    released
}

// ---------------------------------------------------------------------------
// Recording
// ---------------------------------------------------------------------------

/// The pattern event for an incoming note message, placed at `frame`.
pub open spec fn recorded_event(ev: MidiEvent, frame: u64) -> Option<PatternEvent> {
    match note_edge(ev) {
        NoteEdge::On => Some(
            PatternEvent { frame, status: 0x90, note: ev.1[1], velocity: ev.1[2] },
        ),
        NoteEdge::Off => Some(PatternEvent { frame, status: 0x80, note: ev.1[1], velocity: 0 }),
        NoteEdge::Neither => None,
    }
}

/// The note messages of a buffer as pattern events, appended to `taken`. With
/// `snap` they all land on frame 0, otherwise on `pos` plus their own frame.
pub open spec fn notes_recorded(
    taken: Seq<PatternEvent>,
    midi: Seq<MidiEvent>,
    pos: u64,
    snap: bool,
) -> Seq<PatternEvent>
    decreases midi.len(),
{
    if midi.len() == 0 {
        taken
    } else {
        let rest = notes_recorded(taken, midi.drop_last(), pos, snap);
        let frame = if snap {
            0
        } else {
            (pos + midi.last().0) as u64
        };
        match recorded_event(midi.last(), frame) {
            Some(e) => rest.push(e),
            None => rest,
        }
    }
}

/// A note message's recorded frame is in `u64` range.
pub open spec fn frames_fit(midi: Seq<MidiEvent>, pos: u64) -> bool {
    forall|i: int|
        0 <= i < midi.len() && note_edge(#[trigger] midi[i]) !is Neither ==> pos + midi[i].0
            <= u64::MAX
}

/// The events that lie before the end of the pattern.
pub open spec fn events_before(events: Seq<PatternEvent>, length: u64) -> Seq<PatternEvent> {
    events.filter(|e: PatternEvent| e.frame < length)
}

/// The note of a pattern's first note-on.
pub open spec fn first_note(events: Seq<PatternEvent>) -> Option<u8>
    decreases events.len(),
{
    if events.len() == 0 {
        None
    } else {
        match first_note(events.drop_last()) {
            Some(n) => Some(n),
            None => if events.last().status == 0x90 {
                Some(events.last().note)
            } else {
                None
            },
        }
    }
}

/// A player whose recording has just been closed at `length` samples.
pub open spec fn recording_finalized(p: PlayerModel, length: u64) -> PlayerModel {
    let events = events_before(p.recording_events, length);
    PlayerModel {
        events,
        length_samples: length,
        base_note: first_note(events),
        recording_events: Seq::empty(),
        recording: false,
        counting_in: false,
        enabled: events.len() > 0,
        click_remaining: 0,
        ..p
    }
}

/// Pattern events as they are reported.
pub open spec fn events_reported(events: Seq<PatternEvent>) -> Seq<(u64, u8, u8, u8)> {
    Seq::new(
        events.len(),
        |i: int| (events[i].frame, events[i].status, events[i].note, events[i].velocity),
    )
}

/// What is reported of a recording that was just closed, if anybody listens.
pub open spec fn recording_report(p: PlayerModel, length: u64) -> Option<NotificationModel> {
    let q = recording_finalized(p, length);
    if p.notifies {
        Some(
            NotificationModel {
                inst: q.inst_index,
                base_note: q.base_note,
                length_beats: q.length_beats,
                looping: q.looping,
                enabled: q.enabled,
                events: events_reported(q.events),
            },
        )
    } else {
        None
    }
}

/// A player after a buffer of count-in.
pub open spec fn player_counted_in(
    p: PlayerModel,
    midi: Seq<MidiEvent>,
    frames: int,
) -> PlayerModel {
    let pos = p.record_pos + frames;
    let done = pos >= COUNT_IN_BEATS * p.beat_length_samples;
    PlayerModel {
        recording_events: notes_recorded(p.recording_events, midi, 0, true),
        record_pos: if done {
            0
        } else {
            pos as u64
        },
        counting_in: !done,
        recording: done || p.recording,
        ..p
    }
}

/// A player that has taken down a buffer's notes.
pub open spec fn notes_taken(p: PlayerModel, midi: Seq<MidiEvent>, frames: int) -> PlayerModel {
    PlayerModel {
        recording_events: notes_recorded(p.recording_events, midi, p.record_pos, false),
        record_pos: (p.record_pos + frames) as u64,
        ..p
    }
}

/// A player after a buffer of recording towards `length` samples.
pub open spec fn player_recorded(
    p: PlayerModel,
    midi: Seq<MidiEvent>,
    frames: int,
    length: u64,
) -> PlayerModel {
    let taken = notes_taken(p, midi, frames);
    if p.record_pos + frames >= length {
        recording_finalized(taken, length)
    } else {
        taken
    }
}

// ---------------------------------------------------------------------------
// One buffer
// ---------------------------------------------------------------------------

/// Playback is on and there is something to play.
pub open spec fn plays(p: PlayerModel) -> bool {
    p.enabled && p.events.len() > 0 && p.base_note is Some
}

/// A player after a buffer. `length` is the pattern length in samples at the
/// current tempo.
pub open spec fn player_processed(
    p: PlayerModel,
    midi: Seq<MidiEvent>,
    frames: int,
    degrees: &[u8],
    length: u64,
) -> PlayerModel {
    if p.counting_in {
        player_counted_in(p, midi, frames)
    } else if p.recording {
        player_recorded(p, midi, frames, length)
    } else if plays(p) {
        player_played(p, midi, frames, degrees)
    } else {
        p
    }
}

/// What a player puts out for a buffer: while counting in or recording, and
/// without a pattern, the incoming messages; else what playback makes of them.
pub open spec fn player_output(
    p: PlayerModel,
    midi: Seq<MidiEvent>,
    frames: int,
    degrees: &[u8],
) -> Seq<MidiEvent> {
    if !p.counting_in && !p.recording && plays(p) {
        playback_output(p, midi, frames, degrees)
    } else {
        midi
    }
}

/// What a player reports after a buffer.
pub open spec fn player_report(
    p: PlayerModel,
    midi: Seq<MidiEvent>,
    frames: int,
    length: u64,
) -> Option<NotificationModel> {
    if !p.counting_in && p.recording && p.record_pos + frames >= length {
        recording_report(notes_taken(p, midi, frames), length)
    } else {
        None
    }
}

/// The sample positions of a buffer stay in `u64` range.
pub open spec fn process_fits(p: PlayerModel, midi: Seq<MidiEvent>, frames: int) -> bool {
    if p.counting_in {
        &&& COUNT_IN_BEATS * p.beat_length_samples <= u64::MAX
        &&& p.record_pos + frames <= u64::MAX
    } else if p.recording {
        &&& frames_fit(midi, p.record_pos)
        &&& p.record_pos + frames <= u64::MAX
    } else if plays(p) {
        playback_fits(p, midi, frames)
    } else {
        true
    }
}

/// The events of a buffer after the player, and a report if a recording ended.
#[derive(Debug)]
pub struct PatternOutput {
    pub events: Vec<MidiEvent>,
    pub notification: Option<PatternNotification>,
}

/// The view of an optional report.
pub open spec fn report_view(n: Option<PatternNotification>) -> Option<NotificationModel> {
    match n {
        Some(r) => Some(r@),
        None => None,
    }
}

/// A player as it is first created.
pub open spec fn fresh_player(sample_rate: F32Bits) -> PlayerModel {
    PlayerModel {
        events: Seq::empty(),
        length_samples: 0,
        enabled: false,
        recording: false,
        counting_in: false,
        playback_pos: 0,
        record_pos: 0,
        sample_rate,
        base_note: None,
        trigger_note: None,
        held_notes: Seq::empty(),
        active_voices: Seq::empty(),
        recording_events: Seq::empty(),
        length_beats: F32Bits { bits: 0x4080_0000 },
        looping: true,
        in_key: false,
        bpm: F32Bits { bits: 0x42f0_0000 },
        notifies: false,
        inst_index: 0,
        metronome_pos: 0,
        beat_length_samples: 0,
        click_phase: F32Bits { bits: 0 },
        click_remaining: 0,
        click_is_downbeat: false,
    }
}

fn copy_events(midi: &[MidiEvent]) -> (out: Vec<MidiEvent>)
    ensures
        out@ == midi@,
{
    let mut out: Vec<MidiEvent> = Vec::new();
    let mut i: usize = 0;
    while i < midi.len()
        invariant
            i <= midi.len(),
            out@ == midi@.take(i as int),
        decreases midi.len() - i,
    {
        out.push(midi[i]);
        assert(midi@.take(i + 1) =~= midi@.take(i as int).push(midi@[i as int]));
        i += 1;
    }
    assert(midi@.take(midi@.len() as int) =~= midi@);
    out
}

fn take_notes(taken: &mut Vec<PatternEvent>, midi: &[MidiEvent], pos: u64, snap: bool)
    requires
        snap || frames_fit(midi@, pos),
    ensures
        final(taken)@ == notes_recorded(old(taken)@, midi@, pos, snap),
{
    let ghost before = taken@;
    let mut i: usize = 0;
    while i < midi.len()
        invariant
            i <= midi.len(),
            snap || frames_fit(midi@, pos),
            taken@ == notes_recorded(before, midi@.take(i as int), pos, snap),
        decreases midi.len() - i,
    {
        assert(midi@.take(i + 1).drop_last() =~= midi@.take(i as int));
        let ev: MidiEvent = midi[i];
        assert(ev == midi@[i as int]);
        match classify(&ev) {
            NoteEdge::On => {
                let frame: u64 = if snap {
                    0
                } else {
                    pos + ev.0
                };
                taken.push(PatternEvent { frame, status: 0x90, note: ev.1[1], velocity: ev.1[2] });
            },
            NoteEdge::Off => {
                let frame: u64 = if snap {
                    0
                } else {
                    pos + ev.0
                };
                taken.push(PatternEvent { frame, status: 0x80, note: ev.1[1], velocity: 0 });
            },
            NoteEdge::Neither => {},
        }
        i += 1;
    }
    assert(midi@.take(midi@.len() as int) =~= midi@);
}

/// Let a buffer's keys move the trigger; voices of a key that gives way are
/// released.
fn scan_keys(
    midi_in: &[MidiEvent],
    held: &mut Vec<u8>,
    trigger: &mut Option<u8>,
    pos: &mut u64,
    voices: &mut Vec<PatternVoice>,
    out: &mut Vec<MidiEvent>,
)
    ensures
        ({
            let s = scan_events(
                Scan {
                    held: old(held)@,
                    trigger: *old(trigger),
                    pos: *old(pos),
                    voices: old(voices)@,
                    out: old(out)@,
                },
                midi_in@,
            );
            &&& final(held)@ == s.held
            &&& *final(trigger) == s.trigger
            &&& *final(pos) == s.pos
            &&& final(voices)@ == s.voices
            &&& final(out)@ == s.out
        }),
{
    let ghost start = Scan {
        held: held@,
        trigger: *trigger,
        pos: *pos,
        voices: voices@,
        out: out@,
    };
    let mut i: usize = 0;
    while i < midi_in.len()
        invariant
            i <= midi_in.len(),
            ({
                let s = scan_events(start, midi_in@.take(i as int));
                &&& held@ == s.held
                &&& *trigger == s.trigger
                &&& *pos == s.pos
                &&& voices@ == s.voices
                &&& out@ == s.out
            }),
        decreases midi_in.len() - i,
    {
        assert(midi_in@.take(i + 1).drop_last() =~= midi_in@.take(i as int));
        let ev: MidiEvent = midi_in[i];
        let note: u8 = ev.1[1];
        match classify(&ev) {
            NoteEdge::On => {
                held.push(note);
                if let Some(t) = *trigger {
                    if t != note {
                        release_voices(voices, ev.0, out);
                    }
                }
                *trigger = Some(note);
                *pos = 0;
            },
            NoteEdge::Off => {
                drop_key(held, note);
                if *trigger == Some(note) {
                    release_voices(voices, ev.0, out);
                    let n: usize = held.len();
                    if n > 0 {
                        *trigger = Some(held[n - 1]);
                        *pos = 0;
                    } else {
                        *trigger = None;
                    }
                }
            },
            NoteEdge::Neither => {
                out.push(ev);
            },
        }
        i += 1;
    }
    assert(midi_in@.take(midi_in@.len() as int) =~= midi_in@);
}

/// What a player's trigger will be once it has seen a buffer.
#[derive(Clone, Copy, Debug, PartialEq, Eq, Structural)]
pub struct TriggerPreview {
    pub trigger: Option<u8>,
    pub pos: u64,
    /// How many voices keep sounding from before.
    pub voices: usize,
}

impl PatternPlayer {
    /// An empty player: no pattern, 120 beats per minute, four beats, looping.
    pub fn new(sample_rate: F32Bits) -> (p: Self)
        ensures
            p@ == fresh_player(sample_rate),
    {
        PatternPlayer {
            pattern: Pattern { events: Vec::new(), length_samples: 0 },
            enabled: false,
            recording: false,
            counting_in: false,
            playback_pos: 0,
            record_pos: 0,
            sample_rate,
            base_note: None,
            trigger_note: None,
            held_notes: Vec::new(),
            active_voices: Vec::new(),
            recording_events: Vec::new(),
            length_beats: F32Bits { bits: 0x4080_0000 },
            looping: true,
            in_key: false,
            bpm: F32Bits { bits: 0x42f0_0000 },
            notifies: false,
            inst_index: 0,
            metronome_pos: 0,
            beat_length_samples: 0,
            click_phase: F32Bits { bits: 0 },
            click_remaining: 0,
            click_is_downbeat: false,
        }
    }

    /// Whether the metronome should be heard: during count-in and recording.
    pub fn metronome_active(&self) -> (active: bool)
        ensures
            active == (self@.counting_in || self@.recording),
    {
        self.counting_in || self.recording
    }

    fn process_count_in(&mut self, midi_in: &[MidiEvent], buffer_frames: usize)
        requires
            old(self)@.counting_in,
            process_fits(old(self)@, midi_in@, buffer_frames as int),
        ensures
            final(self)@ == player_counted_in(old(self)@, midi_in@, buffer_frames as int),
    {
        let count_in_samples: u64 = COUNT_IN_BEATS * self.beat_length_samples;
        take_notes(&mut self.recording_events, midi_in, 0, true);
        self.record_pos = self.record_pos + buffer_frames as u64;
        if self.record_pos >= count_in_samples {
            self.counting_in = false;
            self.recording = true;
            self.record_pos = 0;
        }
    }

    fn process_recording(
        &mut self,
        midi_in: &[MidiEvent],
        buffer_frames: usize,
        length: u64,
    ) -> (notification: Option<PatternNotification>)
        requires
            !old(self)@.counting_in && old(self)@.recording,
            process_fits(old(self)@, midi_in@, buffer_frames as int),
        ensures
            final(self)@ == player_recorded(
                old(self)@,
                midi_in@,
                buffer_frames as int,
                length,
            ),
            report_view(notification) == player_report(
                old(self)@,
                midi_in@,
                buffer_frames as int,
                length,
            ),
    {
        let pos: u64 = self.record_pos;
        take_notes(&mut self.recording_events, midi_in, pos, false);
        self.record_pos = pos + buffer_frames as u64;
        if self.record_pos >= length {
            self.finalize_recording(length)
        } else {
            None
        }
    }

    /// Close the recording: keep the events before `length_samples`, take the
    /// first of their note-ons as base note, and report the pattern.
    pub fn finalize_recording(&mut self, length_samples: u64) -> (notification: Option<
        PatternNotification,
    >)
        ensures
            final(self)@ == recording_finalized(old(self)@, length_samples),
            report_view(notification) == recording_report(old(self)@, length_samples),
    {
        let ghost before = self@;
        let mut events: Vec<PatternEvent> = Vec::new();
        let mut reported: Vec<(u64, u8, u8, u8)> = Vec::new();
        let mut base: Option<u8> = None;
        let mut i: usize = 0;
        proof {
            reveal(Seq::filter);
            assert(reported@ =~= events_reported(events@));
        }
        while i < self.recording_events.len()
            invariant
                self@ == before,
                i <= self.recording_events.len(),
                events@ == events_before(before.recording_events.take(i as int), length_samples),
                reported@ == events_reported(events@),
                base == first_note(events@),
            decreases self.recording_events.len() - i,
        {
            let e: PatternEvent = self.recording_events[i];
            proof {
                reveal(Seq::filter);
                assert(before.recording_events.take(i + 1).drop_last()
                    =~= before.recording_events.take(i as int));
            }
            if e.frame < length_samples {
                assert(events@.push(e).drop_last() =~= events@);
                if e.status == 0x90 && base.is_none() {
                    base = Some(e.note);
                }
                assert(events_reported(events@.push(e)) =~= events_reported(events@).push(
                    (e.frame, e.status, e.note, e.velocity),
                ));
                events.push(e);
                reported.push((e.frame, e.status, e.note, e.velocity));
            }
            i += 1;
        }
        assert(before.recording_events.take(before.recording_events.len() as int)
            =~= before.recording_events);
        self.recording_events.clear();
        self.base_note = base;
        self.enabled = events.len() > 0;
        self.pattern = Pattern { events, length_samples };
        self.recording = false;
        self.counting_in = false;
        self.click_remaining = 0;
        if self.notifies {
            Some(
                PatternNotification {
                    inst: self.inst_index,
                    base_note: self.base_note,
                    length_beats: self.length_beats,
                    looping: self.looping,
                    enabled: self.enabled,
                    events: reported,
                },
            )
        } else {
            None
        }
    }

    /// Play the pattern events that fall in `[range_start, range_end)`, with
    /// output frames counted from `range_start` and moved by `frame_offset`.
    fn emit_events_in_range(
        &mut self,
        range_start: u64,
        range_end: u64,
        note_map: &NoteMap,
        frame_offset: u64,
        out: &mut Vec<MidiEvent>,
    )
        requires
            range_start <= range_end ==> range_end - range_start + frame_offset <= u64::MAX,
            forall|note: u8| note_map.covers(note),
        ensures
            ({
                let p = play_range(
                    Playback { voices: old(self)@.active_voices, out: old(out)@ },
                    old(self)@.events,
                    old(self)@.events.len(),
                    range_start,
                    range_end,
                    *note_map,
                    frame_offset,
                );
                &&& final(out)@ == p.out
                &&& final(self)@ == (PlayerModel { active_voices: p.voices, ..old(self)@ })
            }),
    {
        let ghost before = self@;
        let ghost start = Playback { voices: self@.active_voices, out: out@ };
        let mut i: usize = 0;
        while i < self.pattern.events.len()
            invariant
                i <= self.pattern.events.len(),
                range_start <= range_end ==> range_end - range_start + frame_offset <= u64::MAX,
                forall|note: u8| note_map.covers(note),
                self@.events == before.events,
                ({
                    let p = play_range(
                        start,
                        before.events,
                        i as nat,
                        range_start,
                        range_end,
                        *note_map,
                        frame_offset,
                    );
                    &&& out@ == p.out
                    &&& self@ == (PlayerModel { active_voices: p.voices, ..before })
                }),
            decreases self.pattern.events.len() - i,
        {
            let ev: PatternEvent = self.pattern.events[i];
            if ev.frame >= range_start && ev.frame < range_end {
                let out_frame: u64 = ev.frame - range_start + frame_offset;
                if ev.status == 0x90 {
                    let mapped: u8 = note_map.map(ev.note);
                    out.push((out_frame, [0x90, mapped, ev.velocity]));
                    self.active_voices.push(
                        PatternVoice { pattern_note: ev.note, playing_note: mapped, channel: 0 },
                    );
                } else {
                    let ghost sounding = voices_of(self.active_voices@, ev.note);
                    let ghost emitted = out@;
                    let released: bool = release_note(
                        &mut self.active_voices,
                        ev.note,
                        out_frame,
                        out,
                    );
                    if !released {
                        assert(voices_off(sounding, out_frame) =~= Seq::empty());
                        assert(out@ =~= emitted);
                        out.push((out_frame, [0x80, note_map.map(ev.note), 0]));
                    }
                }
            }
            i += 1;
        }
    }

    /// Play one buffer of the pattern from the playback position on.
    fn play(&mut self, buffer_frames: usize, note_map: &NoteMap, out: &mut Vec<MidiEvent>)
        requires
            old(self)@.playback_pos + buffer_frames <= u64::MAX,
            old(self)@.playback_pos + buffer_frames > old(self)@.length_samples ==> old(
                self,
            )@.playback_pos <= old(self)@.length_samples || (!old(self)@.looping && old(
                self,
            )@.active_voices.len() == 0),
            buffer_frames == 0 && old(self)@.playback_pos == old(self)@.length_samples ==> old(
                self,
            )@.active_voices.len() == 0,
            forall|note: u8| note_map.covers(note),
        ensures
            ({
                let p = old(self)@;
                let (played, pos) = play_buffer(
                    Playback { voices: p.active_voices, out: old(out)@ },
                    p.events,
                    p.length_samples,
                    p.looping,
                    p.playback_pos,
                    buffer_frames as int,
                    *note_map,
                );
                &&& final(out)@ == played.out
                &&& final(self)@ == (PlayerModel {
                    active_voices: played.voices,
                    playback_pos: pos,
                    ..p
                })
            }),
    {
        let pattern_len: u64 = self.pattern.length_samples;
        let buf_start: u64 = self.playback_pos;
        let buf_end: u64 = buf_start + buffer_frames as u64;
        if buf_end > pattern_len {
            let ghost scanned = Playback { voices: self@.active_voices, out: out@ };
            self.emit_events_in_range(buf_start, pattern_len, note_map, 0, out);
            proof {
                if buf_start > pattern_len {
                    let events = self@.events;
                    empty_range_is_silent(
                        scanned,
                        events,
                        events.len(),
                        buf_start,
                        pattern_len,
                        *note_map,
                        0,
                    );
                    assert(out@ + voices_off(self@.active_voices, (pattern_len - buf_start) as u64)
                        =~= out@);
                }
            }
            if buf_start <= pattern_len {
                let offset: u64 = pattern_len - buf_start;
                release_voices(&mut self.active_voices, offset, out);
                if self.looping {
                    let remainder: u64 = buf_end - pattern_len;
                    self.emit_events_in_range(0, remainder, note_map, offset, out);
                    self.playback_pos = remainder;
                } else {
                    self.playback_pos = pattern_len;
                }
            } else {
                self.playback_pos = pattern_len;
            }
        } else {
            let ghost scanned = Playback { voices: self@.active_voices, out: out@ };
            self.emit_events_in_range(buf_start, buf_end, note_map, 0, out);
            proof {
                if buffer_frames == 0 {
                    let events = self@.events;
                    empty_range_is_silent(
                        scanned,
                        events,
                        events.len(),
                        buf_start,
                        buf_end,
                        *note_map,
                        0,
                    );
                    assert(out@ + voices_off(Seq::empty(), (0 - 1) as u64) =~= out@);
                }
            }
            self.playback_pos = buf_end;
            if self.playback_pos >= pattern_len {
                if buffer_frames > 0 {
                    release_voices(&mut self.active_voices, (buffer_frames - 1) as u64, out);
                }
                if self.looping {
                    self.playback_pos = 0;
                }
            }
        }
    }

    fn process_playback(
        &mut self,
        midi_in: &[MidiEvent],
        buffer_frames: usize,
        degrees: &[u8],
    ) -> (out: Vec<MidiEvent>)
        requires
            old(self)@.base_note is Some,
            playback_fits(old(self)@, midi_in@, buffer_frames as int),
            old(self)@.in_key ==> degrees@.len() == 256,
        ensures
            final(self)@ == player_played(
                old(self)@,
                midi_in@,
                buffer_frames as int,
                degrees,
            ),
            out@ == playback_output(old(self)@, midi_in@, buffer_frames as int, degrees),
    {
        let mut out: Vec<MidiEvent> = Vec::new();
        let base: u8 = match self.base_note {
            Some(n) => n,
            None => {
                return out;
            },
        };
        scan_keys(
            midi_in,
            &mut self.held_notes,
            &mut self.trigger_note,
            &mut self.playback_pos,
            &mut self.active_voices,
            &mut out,
        );
        let trigger: u8 = match self.trigger_note {
            Some(t) => t,
            None => {
                return out;
            },
        };
        let note_map: NoteMap = if self.in_key {
            NoteMap::InKey { degrees }
        } else {
            NoteMap::Chromatic(trigger as i16 - base as i16)
        };
        if self.pattern.length_samples == 0 {
            return out;
        }
        self.play(buffer_frames, &note_map, &mut out);
        out
    }

    /// Look ahead: what the trigger will be once the player has seen a buffer.
    pub fn preview(&self, midi_in: &[MidiEvent]) -> (t: TriggerPreview)
        ensures
            ({
                let s = scan_events(scan_start(self@), midi_in@);
                t.trigger == s.trigger && t.pos == s.pos && t.voices == s.voices.len()
            }),
    {
        let mut held: Vec<u8> = self.held_notes.clone();
        let mut trigger: Option<u8> = self.trigger_note;
        let mut pos: u64 = self.playback_pos;
        let mut voices: Vec<PatternVoice> = self.active_voices.clone();
        let mut out: Vec<MidiEvent> = Vec::new();
        assert(held@ =~= self.held_notes@);
        assert(voices@ =~= self.active_voices@);
        scan_keys(midi_in, &mut held, &mut trigger, &mut pos, &mut voices, &mut out);
        TriggerPreview { trigger, pos, voices: voices.len() }
    }

    /// Whether `process` can take this buffer: no sample position leaves the
    /// `u64` range or falls before the buffer.
    pub fn fits(&self, midi_in: &[MidiEvent], buffer_frames: usize) -> (ok: bool)
        ensures
            ok == process_fits(self@, midi_in@, buffer_frames as int),
    {
        let frames: u64 = buffer_frames as u64;
        if self.counting_in {
            self.beat_length_samples <= u64::MAX / COUNT_IN_BEATS && self.record_pos <= u64::MAX
                - frames
        } else if self.recording {
            if self.record_pos > u64::MAX - frames {
                return false;
            }
            let mut i: usize = 0;
            while i < midi_in.len()
                invariant
                    i <= midi_in.len(),
                    !self.counting_in && self.recording,
                    forall|k: int|
                        0 <= k < i && note_edge(#[trigger] midi_in@[k]) !is Neither
                            ==> self@.record_pos + midi_in@[k].0 <= u64::MAX,
                decreases midi_in.len() - i,
            {
                let ev: MidiEvent = midi_in[i];
                assert(ev == midi_in@[i as int]);
                match classify(&ev) {
                    NoteEdge::Neither => {},
                    _ => {
                        if self.record_pos > u64::MAX - ev.0 {
                            return false;
                        }
                    },
                }
                i += 1;
            }
            true
        } else if self.enabled && self.pattern.events.len() > 0 && self.base_note.is_some() {
            let t = self.preview(midi_in);
            let length: u64 = self.pattern.length_samples;
            if t.trigger.is_none() || length == 0 {
                return true;
            }
            if t.pos > u64::MAX - frames {
                return false;
            }
            let end: u64 = t.pos + frames;
            if end > length && t.pos > length && (self.looping || t.voices > 0) {
                return false;
            }
            !(frames == 0 && t.pos == length && t.voices > 0)
        } else {
            true
        }
    }

    /// Called for each buffer: takes the incoming messages and gives what goes
    /// on down the lane, the originals merged with pattern playback.
    ///
    /// `degrees[n]` is the note that the current scale gives for pattern note
    /// `n` when the base note moves to the trigger (see `preview`); it is read
    /// only while in-key transposition is on. `length` is the pattern length
    /// in samples at the current tempo.
    pub fn process(
        &mut self,
        midi_in: &[MidiEvent],
        buffer_frames: usize,
        degrees: &[u8],
        length: u64,
    ) -> (output: PatternOutput)
        requires
            process_fits(old(self)@, midi_in@, buffer_frames as int),
            old(self)@.in_key ==> degrees@.len() == 256,
        ensures
            final(self)@ == player_processed(
                old(self)@,
                midi_in@,
                buffer_frames as int,
                degrees,
                length,
            ),
            output.events@ == player_output(old(self)@, midi_in@, buffer_frames as int, degrees),
            report_view(output.notification) == player_report(
                old(self)@,
                midi_in@,
                buffer_frames as int,
                length,
            ),
    {
        if self.counting_in {
            self.process_count_in(midi_in, buffer_frames);
            return PatternOutput { events: copy_events(midi_in), notification: None };
        }
        if self.recording {
            let notification = self.process_recording(midi_in, buffer_frames, length);
            return PatternOutput { events: copy_events(midi_in), notification };
        }
        if !self.enabled || self.pattern.events.len() == 0 || self.base_note.is_none() {
            return PatternOutput { events: copy_events(midi_in), notification: None };
        }
        let events = self.process_playback(midi_in, buffer_frames, degrees);
        PatternOutput { events, notification: None }
    }

    // -----------------------------------------------------------------------
    // Edits
    // -----------------------------------------------------------------------

    /// Begin with the count-in; the recording follows by itself.
    pub fn start_recording(&mut self, inst: usize, beat_length_samples: u64)
        ensures
            final(self)@ == recording_started(old(self)@, inst, beat_length_samples),
    {
        self.inst_index = inst;
        self.recording_events.clear();
        self.base_note = None;
        self.record_pos = 0;
        self.metronome_pos = 0;
        self.click_remaining = 0;
        self.click_phase = F32Bits { bits: 0 };
        self.beat_length_samples = beat_length_samples;
        self.counting_in = true;
        self.recording = false;
    }

    /// Stop by hand: a running recording is closed, a count-in is dropped.
    pub fn stop_recording(&mut self, length: u64) -> (notification: Option<PatternNotification>)
        ensures
            final(self)@ == recording_stopped(old(self)@, length),
            report_view(notification) == (if old(self)@.recording {
                recording_report(old(self)@, length)
            } else {
                None
            }),
    {
        self.counting_in = false;
        if self.recording {
            self.finalize_recording(length)
        } else {
            None
        }
    }

    /// Put a pattern in place; it is enabled unless it is empty.
    pub fn set_pattern(&mut self, pattern: Pattern, base_note: Option<u8>, in_key: bool)
        ensures
            final(self)@ == pattern_set(
                old(self)@,
                pattern.events@,
                pattern.length_samples,
                base_note,
                in_key,
            ),
    {
        self.enabled = pattern.events.len() > 0;
        self.pattern = pattern;
        self.base_note = base_note;
        self.in_key = in_key;
    }

    /// Drop the pattern and everything that is going on with it.
    pub fn clear_pattern(&mut self)
        ensures
            final(self)@ == pattern_cleared(old(self)@),
    {
        self.pattern = Pattern { events: Vec::new(), length_samples: 0 };
        self.base_note = None;
        self.enabled = false;
        self.in_key = false;
        self.recording = false;
        self.counting_in = false;
        self.trigger_note = None;
        self.held_notes.clear();
        self.click_remaining = 0;
        self.active_voices.clear();
    }

    /// Advance the metronome by a buffer; gives the frames that carry a click.
    pub fn metronome_clicks(&mut self, buffer_frames: usize, click_duration: u32) -> (clicks: Vec<
        Click,
    >)
        requires
            old(self)@.metronome_pos + buffer_frames <= u64::MAX,
        ensures
            final(self)@ == metronome_advanced(
                old(self)@,
                buffer_frames as nat,
                click_duration,
            ),
            clicks@ == metronome_output(old(self)@, buffer_frames as nat, click_duration),
    {
        let mut clicks: Vec<Click> = Vec::new();
        if !self.metronome_active() || self.beat_length_samples == 0 {
            return clicks;
        }
        let ghost before = self@;
        let ghost start = click_start(before);
        let beat: u64 = self.beat_length_samples;
        let mut remaining: u32 = self.click_remaining;
        let mut downbeat: bool = self.click_is_downbeat;
        let mut i: usize = 0;
        while i < buffer_frames
            invariant
                i <= buffer_frames,
                self@ == before,
                beat == before.beat_length_samples,
                beat > 0,
                before.metronome_pos + buffer_frames <= u64::MAX,
                ({
                    let c = click_run(
                        start,
                        before.metronome_pos as int,
                        beat as int,
                        click_duration,
                        i as nat,
                    );
                    &&& clicks@ == c.clicks
                    &&& remaining == c.remaining
                    &&& downbeat == c.downbeat
                }),
            decreases buffer_frames - i,
        {
            let pos: u64 = self.metronome_pos + i as u64;
            let starts: bool = pos % beat == 0;
            if starts {
                downbeat = (pos / beat) % COUNT_IN_BEATS == 0;
                remaining = click_duration;
            }
            if remaining > 0 {
                clicks.push(Click { frame: i, downbeat, remaining, starts });
                remaining = remaining - 1;
            }
            i += 1;
        }
        self.click_remaining = remaining;
        self.click_is_downbeat = downbeat;
        self.metronome_pos = self.metronome_pos + buffer_frames as u64;
        clicks
    }
}

/// Swap the patterns of two players, with base note, length and modes. Both
/// stop playing.
pub fn swap_patterns(a: &mut PatternPlayer, b: &mut PatternPlayer)
    ensures
        final(a)@ == pattern_taken(old(a)@, old(b)@),
        final(b)@ == pattern_taken(old(b)@, old(a)@),
{
    std::mem::swap(&mut a.pattern, &mut b.pattern);
    std::mem::swap(&mut a.base_note, &mut b.base_note);
    std::mem::swap(&mut a.enabled, &mut b.enabled);
    std::mem::swap(&mut a.length_beats, &mut b.length_beats);
    std::mem::swap(&mut a.in_key, &mut b.in_key);
    a.rest();
    b.rest();
}

impl PatternPlayer {
    /// Forget all held keys and sounding voices.
    pub fn rest(&mut self)
        ensures
            final(self)@ == (PlayerModel {
                trigger_note: None,
                held_notes: Seq::empty(),
                active_voices: Seq::empty(),
                ..old(self)@
            }),
    {
        self.trigger_note = None;
        self.held_notes.clear();
        self.active_voices.clear();
    }
}

// ---------------------------------------------------------------------------
// What the edits do
// ---------------------------------------------------------------------------

/// A player at the start of its count-in.
pub open spec fn recording_started(p: PlayerModel, inst: usize, beat_length: u64) -> PlayerModel {
    PlayerModel {
        inst_index: inst,
        recording_events: Seq::empty(),
        base_note: None,
        record_pos: 0,
        metronome_pos: 0,
        click_remaining: 0,
        click_phase: F32Bits { bits: 0 },
        beat_length_samples: beat_length,
        counting_in: true,
        recording: false,
        ..p
    }
}

/// A player whose recording was stopped by hand.
pub open spec fn recording_stopped(p: PlayerModel, length: u64) -> PlayerModel {
    if p.recording {
        recording_finalized(p, length)
    } else {
        PlayerModel { counting_in: false, ..p }
    }
}

/// A player with another pattern.
pub open spec fn pattern_set(
    p: PlayerModel,
    events: Seq<PatternEvent>,
    length_samples: u64,
    base_note: Option<u8>,
    in_key: bool,
) -> PlayerModel {
    PlayerModel { events, length_samples, base_note, in_key, enabled: events.len() > 0, ..p }
}

/// A player without a pattern.
pub open spec fn pattern_cleared(p: PlayerModel) -> PlayerModel {
    PlayerModel {
        events: Seq::empty(),
        length_samples: 0,
        base_note: None,
        enabled: false,
        in_key: false,
        recording: false,
        counting_in: false,
        trigger_note: None,
        held_notes: Seq::empty(),
        click_remaining: 0,
        active_voices: Seq::empty(),
        ..p
    }
}

/// A player at rest that has taken over another one's pattern.
pub open spec fn pattern_taken(p: PlayerModel, from: PlayerModel) -> PlayerModel {
    PlayerModel {
        events: from.events,
        length_samples: from.length_samples,
        base_note: from.base_note,
        enabled: from.enabled,
        length_beats: from.length_beats,
        in_key: from.in_key,
        trigger_note: None,
        held_notes: Seq::empty(),
        active_voices: Seq::empty(),
        ..p
    }
}

// ---------------------------------------------------------------------------
// Metronome
// ---------------------------------------------------------------------------

/// A sample of metronome click.
#[derive(Clone, Copy, Debug, PartialEq, Eq, Structural)]
pub struct Click {
    /// Frame within the buffer.
    pub frame: usize,
    /// Whether it belongs to the first beat of a bar, which sounds higher.
    pub downbeat: bool,
    /// Samples of the click that are left, this one included.
    pub remaining: u32,
    /// Whether the click starts here.
    pub starts: bool,
}

/// A metronome and the clicks that it gave.
#[verifier::ext_equal]
pub struct ClickRun {
    pub remaining: u32,
    pub downbeat: bool,
    pub clicks: Seq<Click>,
}

/// The click state of a player before a buffer.
pub open spec fn click_start(p: PlayerModel) -> ClickRun {
    ClickRun {
        remaining: p.click_remaining,
        downbeat: p.click_is_downbeat,
        clicks: Seq::empty(),
    }
}

/// The metronome after `n` frames from sample position `pos`: every beat starts
/// a click of `duration` samples, and every fourth beat is a downbeat.
pub open spec fn click_run(start: ClickRun, pos: int, beat: int, duration: u32, n: nat) -> ClickRun
    decreases n,
{
    if n == 0 {
        start
    } else {
        let c = click_run(start, pos, beat, duration, (n - 1) as nat);
        let at = pos + n - 1;
        let starts = at % beat == 0;
        let downbeat = if starts {
            (at / beat) % COUNT_IN_BEATS as int == 0
        } else {
            c.downbeat
        };
        let remaining = if starts {
            duration
        } else {
            c.remaining
        };
        if remaining > 0 {
            ClickRun {
                remaining: (remaining - 1) as u32,
                downbeat,
                clicks: c.clicks.push(
                    Click { frame: (n - 1) as usize, downbeat, remaining, starts },
                ),
            }
        } else {
            ClickRun { remaining, downbeat, clicks: c.clicks }
        }
    }
}

/// The metronome ticks.
pub open spec fn metronome_runs(p: PlayerModel) -> bool {
    (p.counting_in || p.recording) && p.beat_length_samples > 0
}

/// A player after a buffer of metronome.
pub open spec fn metronome_advanced(p: PlayerModel, frames: nat, duration: u32) -> PlayerModel {
    if metronome_runs(p) {
        let c = click_run(
            click_start(p),
            p.metronome_pos as int,
            p.beat_length_samples as int,
            duration,
            frames,
        );
        PlayerModel {
            click_remaining: c.remaining,
            click_is_downbeat: c.downbeat,
            metronome_pos: (p.metronome_pos + frames) as u64,
            ..p
        }
    } else {
        p
    }
}

/// The click samples of a buffer.
pub open spec fn metronome_output(p: PlayerModel, frames: nat, duration: u32) -> Seq<Click> {
    if metronome_runs(p) {
        click_run(
            click_start(p),
            p.metronome_pos as int,
            p.beat_length_samples as int,
            duration,
            frames,
        ).clicks
    } else {
        Seq::empty()
    }
}

} // verus!
