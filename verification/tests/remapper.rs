use tang::event::MidiEvent;
use tang::notes::NoteError;
use tang::remap::{NoteRemapper, RemapError, RemapRequest};

/// Build a remapper from note names and detunes in semitones.
fn build(entries: &[(&str, &str, f64)], range: f64) -> Result<NoteRemapper, RemapError> {
    let requests = entries
        .iter()
        .map(|(source, target, detune)| RemapRequest {
            source: source.to_string(),
            target: target.to_string(),
            exceeds: detune.abs() > range,
            bend_value: (8192.0 + (detune / range) * 8191.0).round() as i32,
        })
        .collect();
    let near = entries
        .iter()
        .map(|(_, _, a)| entries.iter().map(|(_, _, z)| (a - z).abs() < 1e-9).collect())
        .collect();
    NoteRemapper::from_config(&requests, &near)
}

fn remap(remapper: &NoteRemapper, input: &[MidiEvent]) -> Vec<MidiEvent> {
    let mut output = Vec::new();
    remapper.remap_events(input, &mut output);
    output
}

#[test]
fn remapper_from_config_valid() {
    let remapper = build(&[("G#4", "G4", 1.0), ("C#2", "D2", -0.5)], 2.0).unwrap();
    // G#4 = 68, C#2 = 37: both should be in the table
    assert!(remapper.table.contains_key(&68));
    assert!(remapper.table.contains_key(&37));
}

#[test]
fn remapper_remap_note_on() {
    // Remap G#4 (68) to G4 (67) with +1 semitone detune
    let remapper = build(&[("G#4", "G4", 1.0)], 2.0).unwrap();
    let output = remap(&remapper, &[(0, [0x90, 68, 100])]); // note-on G#4

    // Should produce: remapped note-on + pitch bend
    assert_eq!(output.len(), 2);
    // First event: note-on for G4 (67) on channel 2
    assert_eq!(output[0].1[0], 0x91); // note-on ch2
    assert_eq!(output[0].1[1], 67); // G4
    assert_eq!(output[0].1[2], 100); // velocity preserved
    // Second event: pitch bend on channel 2 (status 0xE1)
    assert_eq!(output[1].1[0] & 0xF0, 0xE0);
    assert_eq!(output[1].1[0] & 0x0F, 1); // channel 2 = nibble 0x01
}

#[test]
fn remapper_remap_note_off() {
    let remapper = build(&[("G#4", "G4", 1.0)], 2.0).unwrap();
    let output = remap(&remapper, &[(0, [0x80, 68, 0])]); // note-off G#4
    assert_eq!(output.len(), 1);
    assert_eq!(output[0].1[0], 0x81); // note-off ch2
    assert_eq!(output[0].1[1], 67); // G4
}

#[test]
fn remapper_passthrough_non_remapped() {
    let remapper = build(&[("G#4", "G4", 1.0)], 2.0).unwrap();
    // C4 (60) is NOT remapped: should pass through unchanged
    let output = remap(&remapper, &[(0, [0x90, 60, 100])]);
    assert_eq!(output.len(), 1);
    assert_eq!(output[0].1, [0x90, 60, 100]);
}

#[test]
fn remapper_passthrough_non_note_events() {
    let remapper = build(&[("G#4", "G4", 1.0)], 2.0).unwrap();
    // CC message: should pass through unchanged
    let output = remap(&remapper, &[(0, [0xB0, 64, 127])]);
    assert_eq!(output.len(), 1);
    assert_eq!(output[0].1, [0xB0, 64, 127]);
}

#[test]
fn remapper_pitch_bend_bytes_center() {
    // Detune 0.0: pitch bend = 8192 (center)
    let remapper = build(&[("C4", "C4", 0.0)], 2.0).unwrap();
    let entry = &remapper.table[&60];
    // 8192 = 0b10_0000_0000000: LSB = 0, MSB = 64
    assert_eq!(entry.pitch_bend_lsb, 0);
    assert_eq!(entry.pitch_bend_msb, 64);
}

#[test]
fn remapper_pitch_bend_bytes_max() {
    // Detune +2.0 with range 2.0: pitch bend = 8192 + 8191 = 16383
    let remapper = build(&[("C4", "C4", 2.0)], 2.0).unwrap();
    let entry = &remapper.table[&60];
    // 16383 = 0x3FFF: LSB = 127, MSB = 127
    assert_eq!(entry.pitch_bend_lsb, 127);
    assert_eq!(entry.pitch_bend_msb, 127);
}

#[test]
fn remapper_pitch_bend_bytes_min() {
    // Detune -2.0 with range 2.0: pitch bend = 8192 - 8191 = 1
    let remapper = build(&[("C4", "C4", -2.0)], 2.0).unwrap();
    let entry = &remapper.table[&60];
    // 1 = 0b00_0000_0000001: LSB = 1, MSB = 0
    assert_eq!(entry.pitch_bend_lsb, 1);
    assert_eq!(entry.pitch_bend_msb, 0);
}

#[test]
fn remapper_shared_detune_shares_channel() {
    // Two notes with the same detune should share a MIDI channel
    let remapper = build(&[("C4", "B3", 1.0), ("D4", "C#4", 1.0)], 2.0).unwrap();
    assert_eq!(remapper.table[&60].channel, remapper.table[&62].channel);
}

#[test]
fn remapper_different_detune_different_channels() {
    let remapper = build(&[("C4", "B3", 1.0), ("D4", "C#4", -0.5)], 2.0).unwrap();
    assert_ne!(remapper.table[&60].channel, remapper.table[&62].channel);
}

#[test]
fn remapper_error_detune_exceeds_range() {
    let error = build(&[("C4", "B3", 3.0)], 2.0).unwrap_err();
    assert!(error.message("", "3.0", "2.0").contains("exceeds"));
    assert_eq!(error.message("", "3.0", "2.0"), "detune 3.0 exceeds pitch_bend_range ±2.0");
}

#[test]
fn remapper_error_too_many_detune_values() {
    // 16 distinct detune values should fail (max 15)
    let notes = [
        "C2", "C#2", "D2", "D#2", "E2", "F2", "F#2", "G2", "G#2", "A2", "A#2", "B2", "C3", "C#3",
        "D3", "D#3",
    ];
    let entries: Vec<(&str, &str, f64)> =
        notes.iter().enumerate().map(|(i, &n)| (n, n, (i as f64 + 1.0) * 0.1)).collect();
    let error = build(&entries, 10.0).unwrap_err();
    assert!(error.message("", "", "").contains("too many"));
    // One value fewer is fine.
    assert!(build(&entries[..15], 10.0).is_ok());
}

#[test]
fn remapper_errors_name_the_entry() {
    match build(&[("C4", "B3", 1.0), ("H4", "B3", 1.0)], 2.0) {
        Err(RemapError::Source { entry, error }) => {
            assert_eq!(entry, 1);
            assert!(matches!(error, NoteError::Letter(..)), "{error:?}");
        }
        other => panic!("{other:?}"),
    }
    match build(&[("C4", "", 1.0)], 2.0) {
        Err(RemapError::Target { entry, error }) => {
            assert_eq!(entry, 0);
            assert!(matches!(error, NoteError::Empty), "{error:?}");
        }
        other => panic!("{other:?}"),
    }
}

#[test]
fn remapper_note_off_by_velocity_keeps_its_status() {
    let remapper = build(&[("G#4", "G4", 1.0)], 2.0).unwrap();
    assert_eq!(remap(&remapper, &[(5, [0x90, 68, 0])]), vec![(5, [0x91, 67, 0])]);
}
