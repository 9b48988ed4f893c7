use tang::cli::{default_buffer_size, Cli, Command, EnumerateTarget, Task, SAMPLE_RATE};
use tang::clock::log_line;
use tang::enumerate::{
    self, format_sample_fmt, AudioDevice, DescribedParam, DescribedPlugin, FoundPlugin,
    SampleFormat,
};
use tang::midi::{describe_message, react, struck_note, HeldChange, MidiManager};
use tang::paths::{
    dirs_config, dirs_config_sessions, extend_search_path, join, new_session_path,
    resolve_plugin_path,
};
use tang::play::{turn, KeyPress, Turn};
use tang::tty::StderrSilencer;

#[test]
fn messages_are_described() {
    assert_eq!(
        describe_message("Keys", &[0x92, 60, 100]),
        "MIDI in  [Keys] NoteOn  ch=2 C4 data=[92, 3c, 64]"
    );
    assert_eq!(
        describe_message("Keys", &[0x80, 61]),
        "MIDI in  [Keys] NoteOff ch=0 C#4 data=[80, 3d]"
    );
    assert_eq!(describe_message("K", &[0xb1, 7, 0]), "MIDI in  [K] CC      ch=1 data=[b1, 07, 00]");
    assert_eq!(describe_message("K", &[0xe0]), "MIDI in  [K] Bend    ch=0 data=[e0]");
    assert_eq!(describe_message("K", &[0xd0]), "MIDI in  [K] ChanPrs ch=0 data=[d0]");
    assert_eq!(describe_message("K", &[0xa0]), "MIDI in  [K] KeyPrs  ch=0 data=[a0]");
    assert_eq!(describe_message("K", &[0xc0]), "MIDI in  [K] PgmChg  ch=0 data=[c0]");
    assert_eq!(describe_message("K", &[0xf8]), "MIDI in  [K] Other   ch=8 data=[f8]");
    assert_eq!(describe_message("K", &[0x90]), "MIDI in  [K] NoteOn  ch=0 data=[90]");
}

#[test]
fn notes_are_held_and_lifted() {
    let r = react(&[0x90, 60, 100], false);
    assert_eq!(r.held, Some(HeldChange::Press(60)));
    assert_eq!(r.event, Some((0, [0x90, 60, 100])));
    let r = react(&[0x90, 60, 0], false);
    assert_eq!(r.held, Some(HeldChange::Lift(60)));
    assert_eq!(r.event, Some((0, [0x90, 60, 0])));
    let r = react(&[0x85, 60, 9], false);
    assert_eq!(r.held, Some(HeldChange::Lift(60)));
    // A blocked note goes nowhere, but it can always be lifted.
    let r = react(&[0x90, 61, 100], true);
    assert_eq!((r.held, r.event), (None, None));
    let r = react(&[0x80, 61, 0], true);
    assert_eq!(r.held, Some(HeldChange::Lift(61)));
    assert_eq!(r.event, Some((0, [0x80, 61, 0])));
    assert_eq!(struck_note(&[0x9f, 7, 1]), Some(7));
    assert_eq!(struck_note(&[0x9f, 7, 0]), None);
    assert_eq!(struck_note(&[0x9f, 7]), None);
}

#[test]
fn short_messages_are_filled_and_long_ones_dropped() {
    assert_eq!(react(&[0xc0, 5], false).event, Some((0, [0xc0, 5, 0])));
    assert_eq!(react(&[0xf8], false).event, Some((0, [0xf8, 0, 0])));
    let r = react(&[0xf0, 1, 2, 0xf7], false);
    assert_eq!((r.held, r.event), (None, None));
    // Too long to be sent, yet a key is down.
    let r = react(&[0x90, 60, 100, 0], false);
    assert_eq!((r.held, r.event), (Some(HeldChange::Press(60)), None));
    let r = react(&[], false);
    assert_eq!((r.held, r.event), (None, None));
}

#[test]
fn ports_are_opened_once() {
    let name = |s: &str| Some(s.to_string());
    let mut m = MidiManager::new(name("Key"));
    assert!(m.wants(&name("USB Keyboard")));
    assert!(!m.wants(&name("Pads")));
    assert!(!m.wants(&None));
    m.attempted("USB Keyboard".into(), false);
    assert_eq!(m.connection_count(), 0);
    assert!(m.wants(&name("USB Keyboard")));
    m.attempted("USB Keyboard".into(), true);
    assert_eq!(m.connection_count(), 1);
    assert!(!m.wants(&name("USB Keyboard")));
    assert!(MidiManager::new(None).wants(&name("Pads")));
}

fn command_line(command: Option<Command>) -> Cli {
    Cli {
        session: Some("a.toml".into()),
        audio_device: None,
        midi_device: None,
        buffer_size: 64,
        sample_rate: SAMPLE_RATE,
        debug: false,
        command,
    }
}

#[test]
fn commands_become_tasks() {
    match command_line(None).task() {
        Task::Run { session, interface } => {
            assert_eq!((session.as_deref(), interface), (Some("a.toml"), true));
        }
        other => panic!("{other:?}"),
    }
    match command_line(Some(Command::Play { session: None })).task() {
        Task::Run { session, interface } => assert_eq!((session, interface), (None, false)),
        other => panic!("{other:?}"),
    }
    match command_line(Some(Command::Enumerate(EnumerateTarget::Audio))).task() {
        Task::List(target) => assert_eq!(target, EnumerateTarget::Audio),
        other => panic!("{other:?}"),
    }
    match command_line(Some(Command::Describe { plugin: "builtin:reverb".into() })).task() {
        Task::Describe { plugin } => assert_eq!(plugin, "builtin:reverb"),
        other => panic!("{other:?}"),
    }
    assert_eq!((default_buffer_size(true), default_buffer_size(false)), (1024, 256));
}

#[test]
fn midi_ports_are_listed() {
    assert_eq!(
        enumerate::midi(&vec![]),
        vec!["=== MIDI Input Devices ===", "  (none found)"]
    );
    assert_eq!(
        enumerate::midi(&vec![Some("Keys".into()), None]),
        vec!["=== MIDI Input Devices ===", "  Keys", "  Unknown"]
    );
}

#[test]
fn audio_devices_are_listed() {
    let device = |name: &str, format: SampleFormat| AudioDevice {
        name: name.into(),
        channels: 2,
        rate: 48000,
        format,
    };
    assert_eq!(
        enumerate::audio(&vec![], &Some("a".into())),
        vec!["=== Audio Output Devices ===", "  (none found)"]
    );
    assert_eq!(
        enumerate::audio(
            &vec![device("a", SampleFormat::I16), device("b", SampleFormat::F32)],
            &Some("b".into())
        ),
        vec![
            "=== Audio Output Devices ===",
            "  a  (2ch, 48000Hz, i16)",
            "  b *  (2ch, 48000Hz, f32)",
        ]
    );
}

#[test]
fn sample_formats_have_names() {
    for (format, name) in [
        (SampleFormat::I8, "i8"),
        (SampleFormat::I16, "i16"),
        (SampleFormat::I32, "i32"),
        (SampleFormat::I64, "i64"),
        (SampleFormat::U8, "u8"),
        (SampleFormat::U16, "u16"),
        (SampleFormat::U32, "u32"),
        (SampleFormat::U64, "u64"),
        (SampleFormat::F32, "f32"),
        (SampleFormat::F64, "f64"),
        (SampleFormat::Other, "?"),
    ] {
        assert_eq!(format_sample_fmt(format), name);
    }
}

#[test]
fn plugins_are_listed() {
    let reverb = || FoundPlugin {
        name: "Reverb".into(),
        id: "reverb".into(),
        path: "/p".into(),
        is_instrument: false,
        scan_ms: 3,
        param_count: 10,
        preset_count: 5,
    };
    assert_eq!(
        enumerate::builtins(&vec![reverb(), FoundPlugin { is_instrument: true, ..reverb() }]),
        vec![
            "=== Built-in Plugins ===",
            "  [effect] Reverb (3 ms)",
            "          ID:      reverb",
            "          Params:  10",
            "          Presets: 5",
            "  [instrument] Reverb (3 ms)",
            "          ID:      reverb",
            "          Params:  10",
            "          Presets: 5",
        ]
    );
    assert_eq!(
        enumerate::builtins(&vec![]),
        vec!["=== Built-in Plugins ===", "  (none)"]
    );
    assert_eq!(
        enumerate::plugins(&Some(vec![reverb()]), &vec![], &Some(vec![reverb()])),
        vec![
            "=== LV2 Plugins ===",
            "  [effect] Reverb (3 ms)",
            "          URI:     reverb",
            "          Path:    /p",
            "          Params:  10",
            "          Presets: 5",
            "",
            "=== CLAP Plugins ===",
            "  (none found)",
            "",
            "=== VST3 Plugins ===",
            "  [effect] Reverb (3 ms)",
            "          ID:      reverb",
            "          Path:    /p",
            "          Params:  10",
            "          Presets: 5",
        ]
    );
    assert_eq!(
        enumerate::plugins(&None, &vec![], &None),
        vec![
            "=== LV2 Plugins ===",
            "  (LV2 support not enabled)",
            "",
            "=== CLAP Plugins ===",
            "  (none found)",
            "",
            "=== VST3 Plugins ===",
            "  (VST3 support not enabled)",
        ]
    );
}

#[test]
fn plugins_are_described() {
    let param = |index: u32, name: &str, labels: Option<Vec<String>>, choice: usize| {
        DescribedParam {
            index,
            name: name.into(),
            labels,
            choice,
            min: "0".into(),
            max: "1".into(),
            default: "0.5".into(),
        }
    };
    let labels = vec!["sine".to_string(), "saw".to_string()];
    let mut plugin = DescribedPlugin {
        name: "Oscillator".into(),
        is_instrument: true,
        audio_outputs: 2,
        params: vec![
            param(0, "waveform", Some(labels.clone()), 1),
            param(1, "volume", None, 0),
            param(2, "odd", Some(labels), 9),
        ],
        presets: vec![],
    };
    assert_eq!(
        enumerate::describe(&plugin),
        vec![
            "Oscillator",
            "  Type:          instrument",
            "  Audio outputs: 2",
            "  Parameters:    3",
            "    [0] waveform (sine|saw, default=saw)",
            "    [1] volume (min=0, max=1, default=0.5)",
            "    [2] odd (sine|saw, default=?)",
            "  Presets:       (none)",
        ]
    );
    plugin.presets.push(("Hall".into(), "hall".into()));
    let lines = enumerate::describe(&plugin);
    assert_eq!(&lines[7..], ["  Presets:       1", "    Hall (hall)"]);
}

#[test]
fn plugin_paths_start_at_the_session() {
    assert_eq!(resolve_plugin_path("lv2:http://x", "/s"), "lv2:http://x");
    assert_eq!(resolve_plugin_path("/abs/p.clap", "/s"), "/abs/p.clap");
    assert_eq!(resolve_plugin_path("p.clap", "/s"), "/s/p.clap");
    assert_eq!(resolve_plugin_path("p.clap", "/s/"), "/s/p.clap");
    assert_eq!(resolve_plugin_path("p.clap", ""), "p.clap");
    for (dir, path) in [("/s", "p"), ("/s/", "p"), ("", "p"), ("a", "b/c")] {
        assert_eq!(join(dir, path), std::path::Path::new(dir).join(path).to_str().unwrap());
    }
}

#[test]
fn settings_have_a_place() {
    let s = |s: &str| Some(s.to_string());
    assert_eq!(dirs_config(&s("/cfg"), &s("/home/a")), s("/cfg/tang"));
    assert_eq!(dirs_config(&None, &s("/home/a")), s("/home/a/.config/tang"));
    assert_eq!(dirs_config(&None, &None), None);
    assert_eq!(dirs_config_sessions("/cfg/tang"), "/cfg/tang/sessions");
    assert_eq!(new_session_path("/d", 0), "/d/session-0.toml");
    assert_eq!(new_session_path("/d", 0x18f3_ab90_c0d), "/d/session-18f3ab90c0d.toml");
    for millis in [9, 10, 15, 16, 255, 256, u128::MAX] {
        assert_eq!(new_session_path("d", millis), format!("d/session-{millis:x}.toml"));
    }
}

#[test]
fn search_paths_grow_at_the_front() {
    let dirs = vec!["/a".to_string(), "/b".to_string()];
    assert_eq!(extend_search_path(&dirs, "/c").as_deref(), Some("/a:/b:/c"));
    assert_eq!(extend_search_path(&dirs, "").as_deref(), Some("/a:/b"));
    assert_eq!(extend_search_path(&vec![], "/c"), None);
}

#[test]
fn log_lines_show_the_time_of_day() {
    assert_eq!(log_line(0, 0, "INFO", "hi"), "[00:00:00.000 INFO] hi\r\n");
    assert_eq!(
        log_line(86400 * 3 + 3600 * 13 + 60 * 5 + 9, 42, "WARN", ""),
        "[13:05:09.042 WARN] \r\n"
    );
    assert_eq!(log_line(86399, 999, "E", "x"), "[23:59:59.999 E] x\r\n");
}

#[test]
fn a_failed_duplicate_silences_nothing() {
    assert!(StderrSilencer::new(-1, false).is_none());
    assert!(StderrSilencer::new(-1, true).is_none());
    assert!(StderrSilencer::new(7, false).is_none());
    assert_eq!(StderrSilencer::new(7, true).map(|s| s.saved_fd), Some(7));
}

#[test]
fn playing_ends_on_control_c_and_control_q() {
    let press = |control: bool, c: char| Some(KeyPress { control, character: Some(c) });
    assert_eq!(turn(press(true, 'c'), 0), Turn::Quit);
    assert_eq!(turn(press(true, 'q'), 5000), Turn::Quit);
    assert_eq!(
        turn(press(false, 'q'), 999),
        Turn::Continue { key: press(false, 'q'), poll: false }
    );
    assert_eq!(
        turn(press(true, 'x'), 1000),
        Turn::Continue { key: press(true, 'x'), poll: true }
    );
    assert_eq!(turn(None, 0), Turn::Continue { key: None, poll: false });
}
