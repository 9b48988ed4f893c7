use tang::notes::{
    format_range, note_name, parse_note_name, parse_range, NoteError, RangeError,
};

#[test]
fn parse_range_valid() {
    assert_eq!(parse_range("C0-B3").unwrap(), (12, 59));
}

#[test]
fn parse_range_single_octave() {
    assert_eq!(parse_range("C4-B4").unwrap(), (60, 71));
}

#[test]
fn parse_range_same_note() {
    assert_eq!(parse_range("C4-C4").unwrap(), (60, 60));
}

#[test]
fn parse_range_with_accidentals() {
    assert_eq!(parse_range("C#2-Bb5").unwrap(), (37, 82));
}

#[test]
fn parse_range_invalid_low_gt_high() {
    assert!(parse_range("C4-C3").is_err());
}

#[test]
fn parse_range_open_high() {
    // "C4-" means C4 and up, to the top of the MIDI range.
    assert_eq!(parse_range("C4-").unwrap(), (60, 127));
}

#[test]
fn parse_range_open_low() {
    // "-B3" means everything up to and including B3.
    assert_eq!(parse_range("-B3").unwrap(), (0, 59));
}

#[test]
fn parse_range_invalid_format() {
    assert!(parse_range("C4").is_err());
    assert!(parse_range("C4-B3-C5").is_err());
    // Both bounds omitted is not a range.
    assert!(parse_range("-").is_err());
}

#[test]
fn parse_range_negative_octave() {
    // A '-' that is part of an octave -1 note name is not the separator.
    assert_eq!(parse_range("C-1-B3").unwrap(), (0, 59));
    assert_eq!(parse_range("D-1-B-1").unwrap(), (2, 11));
    assert_eq!(parse_range("B-1-").unwrap(), (11, 127));
    assert_eq!(parse_range("-C-1").unwrap(), (0, 0));
}

#[test]
fn format_range_round_trips() {
    // Open-ended forms are preserved on save.
    assert_eq!(format_range((0, 59)), "-B3");
    assert_eq!(format_range((60, 127)), "C4-");
    assert_eq!(format_range((12, 59)), "C0-B3");
    // Bounds in octave -1 survive a save/load cycle.
    for range in [(0, 59), (2, 11), (60, 127), (0, 127), (12, 59)] {
        assert_eq!(parse_range(&format_range(range)).unwrap(), range);
    }
}

#[test]
fn every_note_name_reads_back() {
    for note in 0..=127u8 {
        assert_eq!(parse_note_name(&note_name(note)).unwrap(), note);
    }
    assert_eq!(note_name(60), "C4");
    assert_eq!(note_name(0), "C-1");
    assert_eq!(note_name(127), "G9");
}

#[test]
fn note_errors_say_what_is_wrong() {
    let message = |name: &str| parse_note_name(name).unwrap_err().message(name);
    assert_eq!(message(""), "empty note name");
    assert_eq!(message("H4"), "invalid note letter 'H'");
    assert_eq!(message("C"), "invalid octave in note name 'C'");
    assert_eq!(message("Cx"), "invalid octave in note name 'Cx'");
    assert_eq!(message("C200"), "invalid octave in note name 'C200'");
    assert_eq!(message("G#9"), "note 'G#9' is out of MIDI range (0-127)");
    assert_eq!(message("Cb-1"), "note 'Cb-1' is out of MIDI range (0-127)");
}

#[test]
fn note_names_take_accidentals_and_small_letters() {
    assert_eq!(parse_note_name("c4").unwrap(), 60);
    assert_eq!(parse_note_name("Bb5").unwrap(), 82);
    assert_eq!(parse_note_name("A0").unwrap(), 21);
    assert_eq!(parse_note_name("Cb4").unwrap(), 59);
    assert_eq!(parse_note_name("C+4").unwrap(), 60);
    assert_eq!(parse_note_name("C-0").unwrap(), 12);
}

#[test]
fn range_errors_say_what_is_wrong() {
    let message = |range: &str| parse_range(range).unwrap_err().message(range);
    assert_eq!(
        message("C4"),
        "invalid range format 'C4', expected 'NOTE-NOTE' (e.g. 'C0-B3'); \
         open-ended 'C4-' or '-C4' are also allowed"
    );
    assert_eq!(message("-"), "invalid range '-': at least one bound is required");
    assert_eq!(message("C4-C3"), "range 'C4-C3' has low (60) > high (48)");
    assert_eq!(message("C4-H3"), "invalid note letter 'H'");
    assert_eq!(message("X4-C3"), "invalid note letter 'X'");
}

#[test]
fn ranges_may_have_spaces() {
    assert_eq!(parse_range("  C4 - B4 ").unwrap(), (60, 71));
    assert_eq!(parse_range("C4 -").unwrap(), (60, 127));
}

#[test]
fn names_above_the_range_are_rejected() {
    assert_eq!(note_name(127), "G9");
    assert_eq!(note_name(128), "G#9");
    assert_eq!(note_name(255), "D#20");
    for note in 128..=255u8 {
        assert_eq!(parse_note_name(&note_name(note)), Err(NoteError::OutOfRange));
    }
}

#[test]
fn pairs_that_are_no_range_are_rejected() {
    let read = |low, high| parse_range(&format_range((low, high)));
    assert_eq!(read(5, 3), Err(RangeError::Order { low: 5, high: 3 }));
    assert_eq!(read(127, 0), Err(RangeError::Order { low: 127, high: 0 }));
    assert_eq!(read(0, 200), Err(RangeError::High(NoteError::OutOfRange)));
    assert_eq!(read(5, 200), Err(RangeError::High(NoteError::OutOfRange)));
    assert_eq!(read(130, 127), Err(RangeError::Low(NoteError::OutOfRange)));
    assert_eq!(read(140, 130), Err(RangeError::Low(NoteError::OutOfRange)));
}
