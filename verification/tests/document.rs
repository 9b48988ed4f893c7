use tang::document::{inline_remap_entries, pitch_of};

#[test]
fn remap_tables_become_lines_in_pitch_order() {
    let text = r#"# my session
[[instrument]]
plugin = "builtin:sine"

[instrument.remap."G#6"]
note = "G6"
detune = 1.5

[instrument.remap."F#2"]
note = "F2"
detune = -1.0

[instrument.remap."C#6"]
note = "C6"
detune = 1.0

[[instrument]]
plugin = "builtin:oscillator"
"#;
    let out = inline_remap_entries(text).unwrap();
    let lines: Vec<&str> = out.lines().filter(|l| !l.is_empty()).collect();
    assert_eq!(
        lines,
        vec![
            "# my session",
            "[[instrument]]",
            r#"plugin = "builtin:sine""#,
            "[instrument.remap]",
            r#""F#2" = { note = "F2", detune = -1.0}"#,
            r#""C#6" = { note = "C6", detune = 1.0}"#,
            r#""G#6" = { note = "G6", detune = 1.5}"#,
            "[[instrument]]",
            r#"plugin = "builtin:oscillator""#,
        ]
    );
}

#[test]
fn text_without_remaps_is_kept() {
    for text in [
        "",
        "# nothing\n",
        "title = \"x\"\n\n[piano]\nscale = \"C Major\"\n",
        "[[instrument]]\nplugin = \"a\" # why\n",
        "instrument = 3\n",
        "[[instrument]]\nremap = 1\n",
    ] {
        assert_eq!(inline_remap_entries(text).unwrap(), text);
    }
}

#[test]
fn text_that_cannot_be_read_is_refused() {
    let message = inline_remap_entries("[[instrument]\n").unwrap_err();
    assert!(message.contains("TOML parse error"), "{message}");
}

#[test]
fn keys_are_ranked_by_pitch() {
    assert_eq!(pitch_of("C4"), 60);
    assert_eq!(pitch_of("F#2"), 42);
    // A key that names no note counts as the lowest.
    assert_eq!(pitch_of("drum"), 0);
}
