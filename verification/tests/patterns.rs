use tang::event::MidiEvent;
use tang::pattern::{NoteMap, Pattern, PatternEvent, PatternPlayer};
use tang::scalar::F32Bits;

fn b(v: f32) -> F32Bits {
    F32Bits { bits: v.to_bits() }
}

fn note_on(note: u8) -> MidiEvent {
    (0, [0x90, note, 100])
}

fn note_off(note: u8) -> MidiEvent {
    (0, [0x80, note, 0])
}

/// A C major triad pattern (C4 E4 G4), one buffer of ons then offs.
fn make_pattern_player(in_key: bool) -> PatternPlayer {
    let mut p = PatternPlayer::new(b(48000.0));
    let event =
        |frame, status, note, velocity| PatternEvent { frame, status, note, velocity };
    p.pattern = Pattern {
        events: vec![
            event(0, 0x90, 60, 100),
            event(0, 0x90, 64, 100),
            event(0, 0x90, 67, 100),
            event(500, 0x80, 60, 0),
            event(500, 0x80, 64, 0),
            event(500, 0x80, 67, 0),
        ],
        length_samples: 1000,
    };
    p.base_note = Some(60);
    p.enabled = true;
    p.in_key = in_key;
    p
}

/// Moves notes along a scale by the degrees between two of its notes.
fn degrees(root: u8, steps: &[u8], base: u8, trigger: u8) -> Vec<u8> {
    let ladder: Vec<u8> = (0..=127u8)
        .filter(|n| steps.contains(&((*n + 12 - root) % 12)))
        .collect();
    let place = |n: u8| ladder.iter().position(|&x| x == n);
    let shift = place(trigger).unwrap() as i32 - place(base).unwrap() as i32;
    (0..=255u8)
        .map(|n| match place(n) {
            Some(i) => ladder[(i as i32 + shift).clamp(0, ladder.len() as i32 - 1) as usize],
            None => n,
        })
        .collect()
}

const MAJOR: [u8; 7] = [0, 2, 4, 5, 7, 9, 11];
const MINOR: [u8; 7] = [0, 2, 3, 5, 7, 8, 10];

fn process(p: &mut PatternPlayer, midi: &[MidiEvent], degrees: &[u8]) -> Vec<MidiEvent> {
    assert!(p.fits(midi, 256));
    p.process(midi, 256, degrees, 1000).events
}

fn note_ons(events: &[MidiEvent]) -> Vec<u8> {
    events.iter().filter(|(_, m)| m[0] & 0xF0 == 0x90 && m[2] > 0).map(|(_, m)| m[1]).collect()
}

fn note_offs(events: &[MidiEvent]) -> Vec<u8> {
    events
        .iter()
        .filter(|(_, m)| m[0] & 0xF0 == 0x80 || (m[0] & 0xF0 == 0x90 && m[2] == 0))
        .map(|(_, m)| m[1])
        .collect()
}

#[test]
fn pattern_chromatic_preserves_intervals() {
    let mut p = make_pattern_player(false);
    // Trigger on D4: chromatic shift +2 gives a D major triad (F# off-scale).
    let events = process(&mut p, &[note_on(62)], &[]);
    assert_eq!(note_ons(&events), vec![62, 66, 69]);
}

#[test]
fn pattern_in_key_transposes_by_scale_degrees() {
    let mut p = make_pattern_player(true);
    let table = degrees(0, &MAJOR, 60, 62); // C Major
    // Trigger on D4 (2nd degree): C E G shifts one degree to D F A, the
    // diatonic D minor triad.
    let events = process(&mut p, &[note_on(62)], &table);
    assert_eq!(note_ons(&events), vec![62, 65, 69]);

    // Note-offs (pattern frame 500, second buffer) release the same
    // transposed notes that were started.
    let events = process(&mut p, &[], &table);
    let mut offs = note_offs(&events);
    offs.sort_unstable();
    assert_eq!(offs, vec![62, 65, 69]);
}

#[test]
fn pattern_in_key_identity_on_base_note() {
    let mut p = make_pattern_player(true);
    // A minor scale: the C major pattern is off-root but in-scale.
    let table = degrees(9, &MINOR, 60, 60);
    // Triggering the base note plays the pattern back unchanged.
    let events = process(&mut p, &[note_on(60)], &table);
    assert_eq!(note_ons(&events), vec![60, 64, 67]);
}

#[test]
fn releasing_the_last_key_ends_all_voices() {
    let mut p = make_pattern_player(false);
    process(&mut p, &[note_on(60)], &[]);
    assert_eq!(p.active_voices.len(), 3);
    let events = process(&mut p, &[note_off(60)], &[]);
    assert_eq!(note_offs(&events), vec![60, 64, 67]);
    assert!(p.active_voices.is_empty());
    assert_eq!(p.trigger_note, None);
}

#[test]
fn playback_falls_back_to_a_key_still_held() {
    let mut p = make_pattern_player(false);
    process(&mut p, &[note_on(60), note_on(62)], &[]);
    assert_eq!(p.trigger_note, Some(62));
    let events = process(&mut p, &[note_off(62)], &[]);
    assert_eq!(p.trigger_note, Some(60));
    assert_eq!(note_offs(&events), vec![62, 66, 69]);
    assert_eq!(note_ons(&events), vec![60, 64, 67]);
}

#[test]
fn a_looping_pattern_starts_over() {
    let mut p = make_pattern_player(false);
    process(&mut p, &[note_on(60)], &[]);
    process(&mut p, &[], &[]);
    process(&mut p, &[], &[]);
    // 768 of 1000 samples are played; the next buffer crosses the end.
    let events = process(&mut p, &[], &[]);
    assert_eq!(events.iter().filter(|e| e.1[0] == 0x90).count(), 3);
    assert_eq!(events[0].0, 232);
    assert_eq!(p.playback_pos, 24);
}

#[test]
fn a_pattern_that_does_not_loop_stops() {
    let mut p = make_pattern_player(false);
    p.looping = false;
    process(&mut p, &[note_on(60)], &[]);
    for _ in 0..4 {
        process(&mut p, &[], &[]);
    }
    assert_eq!(p.playback_pos, 1000);
    assert!(process(&mut p, &[], &[]).is_empty());
}

#[test]
fn messages_other_than_notes_pass_through() {
    let mut p = make_pattern_player(false);
    let cc: MidiEvent = (3, [0xB0, 64, 127]);
    assert_eq!(process(&mut p, &[cc], &[]), vec![cc]);
}

#[test]
fn chromatic_notes_stay_on_the_keyboard() {
    assert_eq!(NoteMap::Chromatic(30).map(120), 127);
    assert_eq!(NoteMap::Chromatic(-30).map(10), 0);
    assert_eq!(NoteMap::Chromatic(2).map(60), 62);
}

#[test]
fn recording_follows_the_count_in() {
    let mut p = PatternPlayer::new(b(48000.0));
    p.notifies = true;
    p.start_recording(4, 100);
    assert!(p.counting_in && p.metronome_active());
    // The count-in takes four beats; a note played in it starts at frame 0.
    p.process(&[(10, [0x90, 64, 90])], 256, &[], 1000);
    assert!(p.counting_in);
    p.process(&[], 256, &[], 1000);
    assert!(!p.counting_in && p.recording);
    // The recording itself.
    p.process(&[(20, [0x80, 64, 0]), (30, [0x90, 50, 80])], 256, &[], 1000);
    let mut report = None;
    for _ in 0..3 {
        let out = p.process(&[(200, [0x90, 70, 1])], 256, &[], 1000);
        report = out.notification.or(report);
    }
    let report = report.expect("the recording is reported");
    assert_eq!(report.inst, 4);
    // The first note struck, though a lower one follows.
    assert_eq!(report.base_note, Some(64));
    assert_eq!(
        report.events,
        vec![(0, 0x90, 64, 90), (20, 0x80, 64, 0), (30, 0x90, 50, 80), (456, 0x90, 70, 1), (712, 0x90, 70, 1), (968, 0x90, 70, 1)]
    );
    assert!(!p.recording && p.enabled);
    assert_eq!(p.pattern.length_samples, 1000);
}

#[test]
fn the_first_beat_of_four_is_the_downbeat() {
    let mut p = PatternPlayer::new(b(48000.0));
    p.start_recording(0, 100);
    let clicks = p.metronome_clicks(500, 2);
    let starts: Vec<(usize, bool)> =
        clicks.iter().filter(|c| c.starts).map(|c| (c.frame, c.downbeat)).collect();
    assert_eq!(starts, vec![(0, true), (100, false), (200, false), (300, false), (400, true)]);
    assert_eq!(clicks.len(), 10);
    assert_eq!(p.metronome_pos, 500);
}

#[test]
fn the_first_note_struck_is_the_base_note() {
    let event = |frame, status, note| PatternEvent { frame, status, note, velocity: 100 };
    let mut p = PatternPlayer::new(b(48000.0));
    p.recording = true;
    p.recording_events = vec![event(0, 0x90, 64), event(10, 0x90, 60)];
    assert!(p.finalize_recording(100).is_none());
    assert_eq!(p.base_note, Some(64));
    assert_eq!(p.pattern.events.len(), 2);
    assert!(p.enabled && !p.recording && p.recording_events.is_empty());

    // A note-off does not count, nor does a note that is cut off.
    p.recording_events = vec![event(0, 0x80, 72), event(5, 0x90, 65)];
    p.finalize_recording(100);
    assert_eq!(p.base_note, Some(65));
    p.recording_events = vec![event(0, 0x80, 72), event(100, 0x90, 65)];
    p.finalize_recording(100);
    assert_eq!(p.base_note, None);
}

#[test]
fn playback_stays_inside_buffer_and_pattern() {
    let mut p = make_pattern_player(false);
    let buffers: [&[MidiEvent]; 6] = [
        &[(3, [0xB0, 1, 7]), (9, [0x90, 60, 100]), (11, [0xE0, 0, 64])],
        &[(255, [0x90, 65, 1])],
        &[],
        &[(0, [0xB0, 1, 8]), (20, [0x80, 65, 0])],
        &[(100, [0xD0, 3, 0]), (101, [0x80, 60, 0])],
        &[(1, [0xB0, 1, 9])],
    ];
    for midi in buffers {
        let out = process(&mut p, midi, &[]);
        assert!(out.iter().all(|e| e.0 < 256));
        let others = |events: &[MidiEvent]| -> Vec<MidiEvent> {
            events.iter().copied().filter(|(_, m)| !matches!(m[0] & 0xF0, 0x80 | 0x90)).collect()
        };
        assert_eq!(others(&out), others(midi));
        assert!(p.playback_pos <= 1000);
        assert!(p.trigger_note.is_some() || p.active_voices.is_empty());
        assert!(p.active_voices.iter().all(|v| v.channel == 0));
    }
    assert_eq!(p.trigger_note, None);
}
