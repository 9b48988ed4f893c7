use tang::midi_monitor::{system_label, MidiMonitor};

#[test]
fn disabled_monitor_records_nothing() {
    let mut m = MidiMonitor::new(false);
    m.record(&[0xD0, 100]);
    assert!(!m.is_enabled());
    assert!(m.snapshot().is_empty());
}

#[test]
fn tallies_by_kind_and_counts() {
    let mut m = MidiMonitor::new(true);
    m.record(&[0xD0, 90]); // channel pressure
    m.record(&[0xD0, 110]); // channel pressure again: count 2, latest bytes update
    m.record(&[0xB0, 74, 20]); // CC 74
    m.record(&[0xE0, 0x00, 0x50]); // pitch bend

    let rows = m.snapshot();
    assert!(rows.iter().any(|r| r.contains("Channel Pressure") && r.contains("×2")), "{rows:?}");
    assert!(rows.iter().any(|r| r.starts_with("CC 74")), "{rows:?}");
    assert!(rows.iter().any(|r| r.contains("Pitch Bend")), "{rows:?}");
    // Latest channel-pressure bytes reflect the most recent message (0x6e = 110).
    assert!(
        rows.iter().any(|r| r.contains("Channel Pressure") && r.contains("6e")),
        "latest bytes should update: {rows:?}"
    );
}

#[test]
fn labels_roli_sysex_distinctly() {
    // A controller's proprietary SysEx must not read as a mystery signal:
    // ROLI's keepalive (manufacturer ID 00 21 10) shows as "SysEx (ROLI)".
    let mut m = MidiMonitor::new(true);
    m.record(&[0xf0, 0x00, 0x21, 0x10, 0x77, 0x6d, 0x20, 0x00, 0xf7]);
    m.record(&[0xf0, 0x7e, 0x00, 0x06, 0x01, 0xf7]); // universal (identity req)
    let rows = m.snapshot();
    assert!(rows.iter().any(|r| r.starts_with("SysEx (ROLI)")), "{rows:?}");
    assert!(rows.iter().any(|r| r.starts_with("SysEx (universal)")), "{rows:?}");
    // Crucially, no channel-message label was invented for it.
    assert!(!rows.iter().any(|r| r.contains("Channel Pressure")), "{rows:?}");
}

#[test]
fn system_messages_have_labels() {
    assert_eq!(system_label(&[0xF8]), "Clock");
}

#[test]
fn rows_sum_up_a_stream() {
    let mut m = MidiMonitor::new(true);
    let stream: [&[u8]; 6] =
        [&[0x90, 60, 1], &[0xE0, 0, 64], &[], &[0x91, 62, 2], &[0xB0, 7, 9], &[0x92, 64, 3]];
    for bytes in stream {
        m.record(bytes);
    }
    let row = |kind: &str, bytes: &str, count: u64| format!("{kind:<17}{bytes:<20}×{count}");
    let rows = m.snapshot();
    assert_eq!(
        rows,
        vec![
            row("CC 7", "[b0, 07, 09]", 1),
            row("Note On", "[92, 40, 03]", 3),
            row("Pitch Bend", "[e0, 00, 40]", 1),
        ]
    );
    assert_eq!(m.snapshot(), rows);
}
