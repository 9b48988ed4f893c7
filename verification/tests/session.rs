use tang::config::{
    EffectConfig, ModTargetConfig, ModulatorConfig, ParamSetting, PianoConfig, Preset, RemapConfig,
    RemapTarget, SessionConfig,
};
use tang::document::inline_remap_entries;
use tang::modulation::{CrossModField, ModTargetKind};
use tang::notes::{NoteError, RangeError};
use tang::save::{
    is_default_mix_f32, is_default_pan_f32, is_default_pitch_bend_range_opt,
    is_default_volume_f32, is_default_volume_f32_opt, is_lfo_type, is_true, is_zero_i8, mods_to_out,
    save, sort_settings, EffectOut, ModulatorOut, SaveEffect, SaveGroup, SaveInstrument,
    SaveInstrumentSlot, SaveModSource, SaveModTarget, SaveModulator, SavePattern, SessionOut,
};
use tang::scalar::{F32Bits, F64Bits};
use tang::session::{
    apply_preset, default_mod_type, default_session, default_true, default_waveform, load,
    GroupRaw, InstrumentSlotRaw, PatternError, PatternEventRaw, PatternRaw, SessionError,
    SessionRaw,
};
use toml_edit::{value, Array, ArrayOfTables, DocumentMut, Item, Table};

fn b(v: f32) -> F32Bits {
    F32Bits { bits: v.to_bits() }
}

fn f(v: F32Bits) -> f32 {
    f32::from_bits(v.bits)
}

fn w(v: f64) -> F64Bits {
    F64Bits { bits: v.to_bits() }
}

fn d(v: F64Bits) -> f64 {
    f64::from_bits(v.bits)
}

// -- reading session text --

type Keys = toml::Table;

fn text_of(t: &Keys, key: &str) -> Option<String> {
    t.get(key).map(|v| v.as_str().unwrap().to_string())
}

fn number_of(t: &Keys, key: &str, usual: f64) -> f64 {
    t.get(key).map_or(usual, |v| v.as_float().or(v.as_integer().map(|i| i as f64)).unwrap())
}

fn index_of(t: &Keys, key: &str) -> Option<usize> {
    t.get(key).map(|v| v.as_integer().unwrap() as usize)
}

fn flag_of(t: &Keys, key: &str, usual: bool) -> bool {
    t.get(key).map_or(usual, |v| v.as_bool().unwrap())
}

fn tables_of<'a>(t: &'a Keys, key: &str) -> Vec<&'a Keys> {
    match t.get(key) {
        Some(v) => v.as_array().unwrap().iter().map(|t| t.as_table().unwrap()).collect(),
        None => vec![],
    }
}

fn settings_of(t: &Keys) -> Vec<ParamSetting> {
    match t.get("params") {
        Some(v) => v
            .as_table()
            .unwrap()
            .iter()
            .map(|(name, v)| ParamSetting {
                name: name.clone(),
                value: b(v.as_float().unwrap() as f32),
            })
            .collect(),
        None => vec![],
    }
}

fn target_of(t: &Keys) -> ModTargetConfig {
    ModTargetConfig {
        param: text_of(t, "param"),
        slot: index_of(t, "slot").unwrap_or(0),
        member: index_of(t, "member"),
        bus: index_of(t, "bus"),
        mod_rate: index_of(t, "mod_rate"),
        mod_depth: t.get("mod_depth").map(|v| {
            v.as_array().unwrap().iter().map(|i| i.as_integer().unwrap() as usize).collect()
        }),
        mod_attack: index_of(t, "mod_attack"),
        mod_decay: index_of(t, "mod_decay"),
        mod_sustain: index_of(t, "mod_sustain"),
        mod_release: index_of(t, "mod_release"),
        depth: b(number_of(t, "depth", 0.5) as f32),
    }
}

fn modulator_of(t: &Keys) -> ModulatorConfig {
    ModulatorConfig {
        mod_type: text_of(t, "type").unwrap_or_else(default_mod_type),
        waveform: text_of(t, "waveform").unwrap_or_else(default_waveform),
        rate: b(number_of(t, "rate", 1.0) as f32),
        attack: b(number_of(t, "attack", 0.01) as f32),
        decay: b(number_of(t, "decay", 0.3) as f32),
        sustain: b(number_of(t, "sustain", 0.7) as f32),
        release: b(number_of(t, "release", 0.5) as f32),
        midi_cc: index_of(t, "midi_cc").map(|i| i as u8),
        midi_pitch_bend: flag_of(t, "midi_pitch_bend", false),
        targets: tables_of(t, "target").into_iter().map(target_of).collect(),
    }
}

fn modulators_of(t: &Keys) -> Vec<ModulatorConfig> {
    tables_of(t, "modulator").into_iter().map(modulator_of).collect()
}

fn effects_of(t: &Keys) -> Vec<EffectConfig> {
    tables_of(t, "effect")
        .into_iter()
        .map(|t| EffectConfig {
            plugin: text_of(t, "plugin").unwrap(),
            preset: text_of(t, "preset"),
            mix: w(number_of(t, "mix", 1.0)),
            params: settings_of(t),
            modulators: modulators_of(t),
        })
        .collect()
}

fn pattern_of(t: &Keys) -> PatternRaw {
    PatternRaw {
        bpm: b(number_of(t, "bpm", 120.0) as f32),
        length_beats: b(number_of(t, "length_beats", 4.0) as f32),
        looping: flag_of(t, "looping", default_true()),
        base_note: text_of(t, "base_note"),
        events: tables_of(t, "events")
            .into_iter()
            .map(|e| PatternEventRaw {
                frame: index_of(e, "frame").unwrap() as u64,
                status: text_of(e, "status").unwrap(),
                note: text_of(e, "note").unwrap(),
                velocity: index_of(e, "velocity").unwrap_or(0) as u8,
            })
            .collect(),
        enabled: flag_of(t, "enabled", false),
        transpose: text_of(t, "transpose"),
    }
}

fn slot_of(t: &Keys) -> InstrumentSlotRaw {
    let remap = match t.get("remap") {
        Some(v) => v
            .as_table()
            .unwrap()
            .iter()
            .map(|(source, v)| {
                let v = v.as_table().unwrap();
                RemapConfig {
                    source: source.clone(),
                    target: RemapTarget {
                        note: text_of(v, "note").unwrap(),
                        detune: w(number_of(v, "detune", 0.0)),
                    },
                }
            })
            .collect(),
        None => vec![],
    };
    InstrumentSlotRaw {
        plugin: text_of(t, "plugin"),
        preset: text_of(t, "preset"),
        volume: w(number_of(t, "volume", 1.0)),
        pitch_bend_range: w(number_of(t, "pitch_bend_range", 2.0)),
        remap,
        params: settings_of(t),
        modulators: modulators_of(t),
        range: text_of(t, "range"),
        transpose: t.get("transpose").map_or(0, |v| v.as_integer().unwrap() as i8),
        group: index_of(t, "group"),
        effects: effects_of(t),
        pattern: t.get("pattern").map(|p| pattern_of(p.as_table().unwrap())),
    }
}

fn read(text: &str) -> SessionRaw {
    let t: Keys = text.parse().unwrap();
    SessionRaw {
        instruments: tables_of(&t, "instrument").into_iter().map(slot_of).collect(),
        groups: tables_of(&t, "group")
            .into_iter()
            .map(|t| GroupRaw {
                name: text_of(t, "name"),
                volume: b(number_of(t, "volume", 1.0) as f32),
                pan: b(number_of(t, "pan", 0.0) as f32),
                effects: effects_of(t),
                modulators: modulators_of(t),
            })
            .collect(),
        piano: t.get("piano").map(|p| {
            let p = p.as_table().unwrap();
            PianoConfig { scale: text_of(p, "scale"), locked: flag_of(p, "locked", false) }
        }),
    }
}

fn load_text(text: &str) -> Result<SessionConfig, SessionError> {
    load(read(text))
}

// -- writing session text --

fn put<V: Into<toml_edit::Value>>(t: &mut Table, key: &str, v: Option<V>) {
    if let Some(v) = v {
        t.insert(key, value(v));
    }
}

fn put_index(t: &mut Table, key: &str, v: Option<usize>) {
    put(t, key, v.map(|i| i as i64));
}

fn put_tables(t: &mut Table, key: &str, tables: Vec<Table>) {
    if tables.is_empty() {
        return;
    }
    let mut items = ArrayOfTables::new();
    for table in tables {
        items.push(table);
    }
    t.insert(key, Item::ArrayOfTables(items));
}

fn put_settings(t: &mut Table, params: &[ParamSetting]) {
    if params.is_empty() {
        return;
    }
    let mut table = Table::new();
    for p in params {
        table.insert(&p.name, value(f(p.value) as f64));
    }
    t.insert("params", Item::Table(table));
}

fn modulator_tables(mods: &[ModulatorOut]) -> Vec<Table> {
    mods.iter()
        .map(|m| {
            let mut t = Table::new();
            if !is_lfo_type(&m.mod_type) {
                put(&mut t, "type", Some(m.mod_type.clone()));
            }
            put(&mut t, "waveform", m.waveform.clone());
            for (key, v) in [
                ("rate", m.rate),
                ("attack", m.attack),
                ("decay", m.decay),
                ("sustain", m.sustain),
                ("release", m.release),
            ] {
                put(&mut t, key, v.map(|v| f(v) as f64));
            }
            put(&mut t, "midi_cc", m.midi_cc.map(|c| c as i64));
            if m.midi_pitch_bend {
                put(&mut t, "midi_pitch_bend", Some(true));
            }
            let targets = m
                .targets
                .iter()
                .map(|g| {
                    let mut t = Table::new();
                    put(&mut t, "param", g.param.clone());
                    put_index(&mut t, "slot", g.slot);
                    put_index(&mut t, "member", g.member);
                    put_index(&mut t, "bus", g.bus);
                    put_index(&mut t, "mod_rate", g.mod_rate);
                    if let Some(pair) = &g.mod_depth {
                        let mut list = Array::new();
                        for i in pair {
                            list.push(*i as i64);
                        }
                        put(&mut t, "mod_depth", Some(list));
                    }
                    put_index(&mut t, "mod_attack", g.mod_attack);
                    put_index(&mut t, "mod_decay", g.mod_decay);
                    put_index(&mut t, "mod_sustain", g.mod_sustain);
                    put_index(&mut t, "mod_release", g.mod_release);
                    put(&mut t, "depth", Some(f(g.depth) as f64));
                    t
                })
                .collect();
            put_tables(&mut t, "target", targets);
            t
        })
        .collect()
}

fn effect_tables(effects: &[EffectOut]) -> Vec<Table> {
    effects
        .iter()
        .map(|e| {
            let mut t = Table::new();
            put(&mut t, "plugin", Some(e.plugin.clone()));
            if !is_default_mix_f32(&e.mix) {
                put(&mut t, "mix", Some(f(e.mix) as f64));
            }
            put(&mut t, "preset", e.preset.clone());
            put_settings(&mut t, &e.params);
            t
        })
        .collect()
}

fn write(s: &SessionOut) -> String {
    let mut doc = DocumentMut::new();
    let slots = s
        .instruments
        .iter()
        .map(|s| {
            let mut t = Table::new();
            put(&mut t, "plugin", s.plugin.clone());
            if !is_default_volume_f32_opt(&s.volume) {
                put(&mut t, "volume", s.volume.map(|v| f(v) as f64));
            }
            put(&mut t, "preset", s.preset.clone());
            put(&mut t, "range", s.range.clone());
            if !is_zero_i8(&s.transpose) {
                put(&mut t, "transpose", Some(s.transpose as i64));
            }
            put_index(&mut t, "group", s.group);
            if !is_default_pitch_bend_range_opt(&s.pitch_bend_range) {
                put(&mut t, "pitch_bend_range", s.pitch_bend_range.map(d));
            }
            put_settings(&mut t, &s.params);
            if !s.remap.is_empty() {
                let mut remap = Table::new();
                for r in &s.remap {
                    let mut entry = Table::new();
                    put(&mut entry, "note", Some(r.target.note.clone()));
                    put(&mut entry, "detune", Some(d(r.target.detune)));
                    remap.insert(&r.source, Item::Table(entry));
                }
                t.insert("remap", Item::Table(remap));
            }
            put_tables(&mut t, "modulator", modulator_tables(&s.modulators));
            put_tables(&mut t, "effect", effect_tables(&s.effects));
            if let Some(p) = &s.pattern {
                let mut table = Table::new();
                put(&mut table, "bpm", Some(f(p.bpm) as f64));
                put(&mut table, "length_beats", Some(f(p.length_beats) as f64));
                if !is_true(&p.looping) {
                    put(&mut table, "looping", Some(p.looping));
                }
                put(&mut table, "base_note", p.base_note.clone());
                put(&mut table, "transpose", p.transpose.clone());
                put(&mut table, "enabled", Some(p.enabled));
                let events = p
                    .events
                    .iter()
                    .map(|e| {
                        let mut t = Table::new();
                        put(&mut t, "frame", Some(e.frame as i64));
                        put(&mut t, "status", Some(e.status.clone()));
                        put(&mut t, "note", Some(e.note.clone()));
                        put(&mut t, "velocity", Some(e.velocity as i64));
                        t
                    })
                    .collect();
                put_tables(&mut table, "events", events);
                t.insert("pattern", Item::Table(table));
            }
            t
        })
        .collect();
    put_tables(doc.as_table_mut(), "instrument", slots);
    let groups = s
        .groups
        .iter()
        .map(|g| {
            let mut t = Table::new();
            put(&mut t, "name", g.name.clone());
            if !is_default_volume_f32(&g.volume) {
                put(&mut t, "volume", Some(f(g.volume) as f64));
            }
            if !is_default_pan_f32(&g.pan) {
                put(&mut t, "pan", Some(f(g.pan) as f64));
            }
            put_tables(&mut t, "effect", effect_tables(&g.effects));
            put_tables(&mut t, "modulator", modulator_tables(&g.modulators));
            t
        })
        .collect();
    put_tables(doc.as_table_mut(), "group", groups);
    if let Some(p) = &s.piano {
        let mut t = Table::new();
        put(&mut t, "scale", p.scale.clone());
        doc.insert("piano", Item::Table(t));
    }
    inline_remap_entries(&doc.to_string()).unwrap()
}

fn save_text(
    instruments: &Vec<SaveInstrumentSlot>,
    groups: &Vec<SaveGroup>,
    piano: Option<PianoConfig>,
) -> String {
    write(&save(instruments, groups, &piano))
}

fn instrument(plugin: &str) -> SaveInstrument {
    SaveInstrument {
        plugin: plugin.into(),
        volume: b(1.0),
        preset: None,
        params: vec![],
        pitch_bend_range: w(2.0),
        remap: vec![],
    }
}

fn effect(plugin: &str, mix: f32) -> SaveEffect {
    SaveEffect { plugin: plugin.into(), mix: b(mix), preset: None, params: vec![] }
}

fn slot(instrument: SaveInstrument) -> SaveInstrumentSlot {
    SaveInstrumentSlot {
        range: None,
        transpose: 0,
        group: None,
        modulators: vec![],
        instrument: Some(instrument),
        effects: vec![],
        pattern: None,
    }
}

fn target(kind: ModTargetKind, label: &str, depth: f32, slot: usize) -> SaveModTarget {
    SaveModTarget { kind, label: label.into(), depth: b(depth), slot }
}

#[test]
fn load_new_format() {
    let toml = r#"
[[instrument]]
plugin = "builtin:sine"
range = "C0-B3"

[[instrument]]
plugin = "builtin:sine"
range = "C4-C8"
"#;
    let config = load_text(toml).unwrap();
    assert_eq!(config.instruments.len(), 2);
    assert_eq!(config.instruments[0].range, Some((12, 59)));
    assert_eq!(config.instruments[1].range, Some((60, 108)));
}

#[test]
fn save_and_reload() {
    let instruments = vec![
        SaveInstrumentSlot {
            range: Some((12, 59)), // C0-B3
            effects: vec![effect("builtin:sine", 0.5)],
            ..slot(SaveInstrument {
                volume: b(0.8),
                params: vec![ParamSetting { name: "cutoff".into(), value: b(0.75) }],
                ..instrument("builtin:sine")
            })
        },
        slot(instrument("builtin:sine")),
    ];

    let raw = save_text(&instruments, &vec![], None);

    // Reload and verify
    let config = load_text(&raw).unwrap();
    assert_eq!(config.instruments.len(), 2);
    assert_eq!(config.instruments[0].range, Some((12, 59)));
    let inst = config.instruments[0].instrument.as_ref().unwrap();
    assert_eq!(inst.plugin, "builtin:sine");
    assert!((d(inst.volume) - 0.8).abs() < 0.01);
    assert_eq!(inst.params.len(), 1);
    assert_eq!(inst.params[0].name, "cutoff");
    assert_eq!(f(inst.params[0].value), 0.75);
    assert_eq!(config.instruments[0].effects.len(), 1);
    assert!((d(config.instruments[0].effects[0].mix) - 0.5).abs() < 0.01);
    assert!(config.instruments[1].range.is_none());
}

#[test]
fn save_and_reload_with_preset() {
    let instruments = vec![SaveInstrumentSlot {
        effects: vec![SaveEffect {
            preset: Some("Arcadia Dream Hall".into()),
            ..effect("builtin:reverb", 0.4)
        }],
        ..slot(SaveInstrument { preset: Some("Lead".into()), ..instrument("builtin:sine") })
    }];

    let raw = save_text(&instruments, &vec![], None);

    let config = load_text(&raw).unwrap();
    assert_eq!(config.instruments.len(), 1);
    let inst = config.instruments[0].instrument.as_ref().unwrap();
    assert_eq!(inst.preset.as_deref(), Some("Lead"));
    assert_eq!(config.instruments[0].effects.len(), 1);
    assert_eq!(config.instruments[0].effects[0].preset.as_deref(), Some("Arcadia Dream Hall"));
}

#[test]
fn save_and_reload_with_modulators() {
    let instruments = vec![SaveInstrumentSlot {
        modulators: vec![SaveModulator {
            source: SaveModSource::Lfo { waveform: "sine".into(), rate: b(2.5) },
            targets: vec![target(
                ModTargetKind::PluginParam { slot: 0, param_index: 0 },
                "cutoff",
                0.75,
                0,
            )],
        }],
        ..slot(instrument("builtin:sine"))
    }];

    let raw = save_text(&instruments, &vec![], None);

    let config = load_text(&raw).unwrap();
    assert_eq!(config.instruments.len(), 1);
    let inst = config.instruments[0].instrument.as_ref().unwrap();
    assert_eq!(inst.modulators.len(), 1);
    let m = &inst.modulators[0];
    assert_eq!(m.waveform, "sine");
    assert!((f(m.rate) - 2.5).abs() < 0.01);
    assert_eq!(m.targets.len(), 1);
    assert_eq!(m.targets[0].param.as_deref(), Some("cutoff"));
    assert!((f(m.targets[0].depth) - 0.75).abs() < 0.01);
    // Slot defaults to instrument (0).
    assert_eq!(m.targets[0].slot, 0);
}

#[test]
fn save_and_reload_midi_learn_modulator() {
    // A MIDI-learned modulator (bound to CC 74) must round-trip as
    // `type = "midi"` + `midi_cc = 74`.
    let instruments = vec![SaveInstrumentSlot {
        modulators: vec![SaveModulator {
            source: SaveModSource::MidiLearn { cc: Some(74), pitch_bend: false },
            targets: vec![target(
                ModTargetKind::PluginParam { slot: 0, param_index: 0 },
                "cutoff",
                1.0,
                0,
            )],
        }],
        ..slot(instrument("builtin:filter"))
    }];

    let raw = save_text(&instruments, &vec![], None);
    assert!(raw.contains("type = \"midi\""), "expected midi modulator:\n{raw}");
    assert!(raw.contains("midi_cc = 74"), "expected bound CC:\n{raw}");

    let config = load_text(&raw).unwrap();
    let inst = config.instruments[0].instrument.as_ref().unwrap();
    assert_eq!(inst.modulators.len(), 1);
    let m = &inst.modulators[0];
    assert_eq!(m.mod_type, "midi");
    assert_eq!(m.midi_cc, Some(74));
    assert!(!m.midi_pitch_bend);
    assert_eq!(m.targets[0].param.as_deref(), Some("cutoff"));
}

#[test]
fn save_and_reload_cross_slot_modulator() {
    // A lane modulator targeting an effect (slot 1) must round-trip the slot.
    let instruments = vec![SaveInstrumentSlot {
        modulators: vec![SaveModulator {
            source: SaveModSource::Lfo { waveform: "sine".into(), rate: b(1.0) },
            targets: vec![target(
                ModTargetKind::PluginParam { slot: 1, param_index: 0 },
                "cutoff",
                0.5,
                1,
            )],
        }],
        effects: vec![effect("builtin:filter", 1.0)],
        ..slot(instrument("builtin:osc"))
    }];
    let raw = save_text(&instruments, &vec![], None);
    assert!(raw.contains("slot = 1"), "saved target should record its slot:\n{raw}");

    let config = load_text(&raw).unwrap();
    let inst = config.instruments[0].instrument.as_ref().unwrap();
    assert_eq!(inst.modulators.len(), 1);
    assert_eq!(inst.modulators[0].targets[0].slot, 1);
    assert_eq!(inst.modulators[0].targets[0].param.as_deref(), Some("cutoff"));
}

#[test]
fn save_and_reload_group() {
    // A group with a bus effect + volume, and two member instruments,
    // must round-trip (membership index + group fields).
    let member =
        |group: Option<usize>| SaveInstrumentSlot { group, ..slot(instrument("builtin:osc")) };
    let instruments = vec![member(Some(0)), member(Some(0)), member(None)];
    let groups = vec![SaveGroup {
        name: Some("Pad".into()),
        volume: b(0.5),
        pan: b(-0.5),
        effects: vec![effect("builtin:reverb", 1.0)],
        modulators: vec![],
    }];
    let raw = save_text(&instruments, &groups, None);
    assert!(raw.contains("[[group]]"), "expected a [[group]] section:\n{raw}");
    assert!(raw.contains("group = 0"), "members should record group index:\n{raw}");
    assert!(raw.contains("pan = -0.5"), "group pan should serialize:\n{raw}");

    let config = load_text(&raw).unwrap();
    assert_eq!(config.groups.len(), 1);
    assert_eq!(config.groups[0].name.as_deref(), Some("Pad"));
    assert!((f(config.groups[0].volume) - 0.5).abs() < 1e-6);
    assert!((f(config.groups[0].pan) + 0.5).abs() < 1e-6);
    assert_eq!(config.groups[0].effects.len(), 1);
    assert_eq!(config.instruments[0].group, Some(0));
    assert_eq!(config.instruments[1].group, Some(0));
    assert_eq!(config.instruments[2].group, None);
}

#[test]
fn save_and_reload_group_modulator() {
    // A group-scoped modulator with a member target and a bus target must
    // round-trip through `[[group.modulator]]` (member/bus + param name).
    let member = SaveInstrumentSlot { group: Some(0), ..slot(instrument("builtin:osc")) };
    let groups = vec![SaveGroup {
        name: None,
        volume: b(1.0),
        pan: b(0.0),
        effects: vec![effect("builtin:filter", 1.0)],
        modulators: vec![SaveModulator {
            source: SaveModSource::Lfo { waveform: "sine".into(), rate: b(2.0) },
            targets: vec![
                target(
                    ModTargetKind::GroupMember { member: 0, slot: 0, param_index: 0 },
                    "cutoff",
                    0.5,
                    0,
                ),
                target(
                    ModTargetKind::GroupBus { effect_index: 0, param_index: 0 },
                    "cutoff",
                    0.25,
                    0,
                ),
                // Group to member-modulator cross-mod: member 0's modulator 0 rate.
                target(
                    ModTargetKind::GroupMemberMod {
                        member: 0,
                        mod_index: 0,
                        field: CrossModField::Rate,
                    },
                    "M0 Mod0 rate",
                    0.3,
                    0,
                ),
            ],
        }],
    }];
    let raw = save_text(&vec![member], &groups, None);
    assert!(raw.contains("[[group.modulator]]"), "expected group modulator:\n{raw}");
    assert!(raw.contains("member = 0"), "member target should record member:\n{raw}");
    assert!(raw.contains("bus = 0"), "bus target should record bus index:\n{raw}");

    let config = load_text(&raw).unwrap();
    assert_eq!(config.groups[0].modulators.len(), 1);
    let m = &config.groups[0].modulators[0];
    assert_eq!(m.targets.len(), 3);
    assert_eq!(m.targets[0].member, Some(0));
    assert_eq!(m.targets[0].param.as_deref(), Some("cutoff"));
    assert_eq!(m.targets[1].bus, Some(0));
    assert_eq!(m.targets[1].param.as_deref(), Some("cutoff"));
    // The member-modulator target: member set, mod_rate carries the index,
    // and no param name.
    assert_eq!(m.targets[2].member, Some(0));
    assert_eq!(m.targets[2].mod_rate, Some(0));
    assert_eq!(m.targets[2].param, None);
}

#[test]
fn save_and_reload_with_remap() {
    let entry = |source: &str, note: &str| RemapConfig {
        source: source.into(),
        target: RemapTarget { note: note.into(), detune: w(1.0) },
    };
    // Out of pitch order on purpose; saved file should still be in pitch order.
    let remap = vec![entry("G#6", "G6"), entry("F#2", "F2"), entry("C#6", "C6")];

    let instruments = vec![slot(SaveInstrument { remap, ..instrument("builtin:sine") })];

    // Output should use inline tables and stable alphabetical ordering.
    let raw = save_text(&instruments, &vec![], None);
    assert!(
        raw.contains(r#""F#2" = { note = "F2", detune = 1.0}"#)
            && !raw.contains(r#"[instrument.remap."F#2"]"#),
        "expected inline table for F#2, got:\n{raw}"
    );
    // Saved file should be ordered by MIDI pitch: F#2 < C#6 < G#6.
    let f_pos = raw.find("F#2").unwrap();
    let c_pos = raw.find("C#6").unwrap();
    let g_pos = raw.find("G#6").unwrap();
    assert!(f_pos < c_pos && c_pos < g_pos, "remap entries not in pitch order:\n{raw}");

    let config = load_text(&raw).unwrap();
    let inst = config.instruments[0].instrument.as_ref().unwrap();
    assert_eq!(inst.remap.len(), 3);
    let find = |key: &str| &inst.remap.iter().find(|r| r.source == key).unwrap().target;
    assert_eq!(find("F#2").note, "F2");
    assert!((d(find("F#2").detune) - 1.0).abs() < f64::EPSILON);
    assert_eq!(find("G#6").note, "G6");
}

#[test]
fn save_and_reload_with_piano_scale() {
    let instruments = vec![slot(instrument("builtin:sine"))];
    let piano = PianoConfig { scale: Some("F# dorian".into()), locked: false };
    let raw = save_text(&instruments, &vec![], Some(piano));
    assert!(raw.contains("[piano]"));
    assert!(raw.contains("scale = \"F# dorian\""));

    let config = load_text(&raw).unwrap();
    let piano_cfg = config.piano.expect("piano section");
    assert_eq!(piano_cfg.scale.as_deref(), Some("F# dorian"));
}

#[test]
fn save_and_reload_pattern_transpose_mode() {
    let mut instruments = vec![SaveInstrumentSlot {
        pattern: Some(SavePattern {
            bpm: b(120.0),
            length_beats: b(4.0),
            looping: true,
            base_note: Some(60),
            events: vec![(0, 0x90, 60, 100), (24000, 0x80, 60, 0)],
            enabled: true,
            in_key: true,
        }),
        ..slot(instrument("builtin:sine"))
    }];
    let raw = save_text(&instruments, &vec![], None);
    assert!(raw.contains("transpose = \"in_key\""));

    let config = load_text(&raw).unwrap();
    let pattern = config.instruments[0].pattern.as_ref().expect("pattern");
    assert!(pattern.in_key);
    assert_eq!(pattern.base_note, Some(60));
    assert_eq!(pattern.events, vec![(0, 0x90, 60, 100), (24000, 0x80, 60, 0)]);

    // Chromatic (default) round-trips without writing the field.
    instruments[0].pattern.as_mut().unwrap().in_key = false;
    let raw = save_text(&instruments, &vec![], None);
    assert!(!raw.contains("transpose"));
    let config = load_text(&raw).unwrap();
    assert!(!config.instruments[0].pattern.as_ref().unwrap().in_key);
}

#[test]
fn pattern_transpose_rejects_unknown_value() {
    let toml = r#"
[[instrument]]
plugin = "builtin:sine"

[instrument.pattern]
transpose = "dorian"
"#;
    let err = match load_text(toml) {
        Err(e) => e,
        Ok(_) => panic!("expected load to fail on unknown transpose value"),
    };
    assert!(err.message("dorian").contains("transpose"));
    assert_eq!(
        err.message("dorian"),
        "invalid pattern transpose 'dorian', expected 'chromatic' or 'in_key'"
    );
}

#[test]
fn load_session_with_modulators() {
    let toml = r#"
[[instrument]]
plugin = "builtin:sine"

[[instrument.modulator]]
waveform = "triangle"
rate = 0.5

[[instrument.modulator.target]]
param = "frequency"
depth = 0.3
"#;
    let config = load_text(toml).unwrap();
    let inst = config.instruments[0].instrument.as_ref().unwrap();
    assert_eq!(inst.modulators.len(), 1);
    let m = &inst.modulators[0];
    assert_eq!(m.waveform, "triangle");
    assert!((f(m.rate) - 0.5).abs() < 0.01);
    assert_eq!(m.targets.len(), 1);
    assert_eq!(m.targets[0].param.as_deref(), Some("frequency"));
    assert!((f(m.targets[0].depth) - 0.3).abs() < 0.01);
}

#[test]
fn load_names_the_first_error() {
    let bad = |body: &str| {
        let text = format!("[[instrument]]\n[[instrument]]\n{body}\n[[instrument]]\nrange = \"-\"\n");
        load_text(&text).unwrap_err()
    };
    assert_eq!(
        bad("range = \"C4-C3\""),
        SessionError::Range { slot: 1, error: RangeError::Order { low: 60, high: 48 } }
    );
    assert_eq!(
        bad("[instrument.pattern]\nbase_note = \"H\""),
        SessionError::Pattern {
            slot: 1,
            error: PatternError::BaseNote { error: NoteError::Letter('H') },
        }
    );
    let event = |status: &str, note: &str| {
        format!(
            "[[instrument.pattern.events]]\nframe = 0\nstatus = \"on\"\nnote = \"C4\"\n\
             [[instrument.pattern.events]]\nframe = 0\nstatus = \"{status}\"\nnote = \"{note}\""
        )
    };
    assert_eq!(
        bad(&event("on", "")),
        SessionError::Pattern {
            slot: 1,
            error: PatternError::EventNote { event: 1, error: NoteError::Empty },
        }
    );
    let status = bad(&event("hold", "C4"));
    assert_eq!(
        status,
        SessionError::Pattern { slot: 1, error: PatternError::EventStatus { event: 1 } }
    );
    assert_eq!(
        status.message("hold"),
        "invalid pattern event status 'hold', expected 'on' or 'off'"
    );
    assert_eq!(
        bad(""),
        SessionError::Range { slot: 2, error: RangeError::NoBound }
    );
}

#[test]
fn a_slot_without_plugin_is_empty() {
    let config = load_text("[[instrument]]\ntranspose = -5\n").unwrap();
    assert!(config.instruments[0].instrument.is_none());
    assert_eq!(config.instruments[0].transpose, -5);
}

#[test]
fn a_new_session_is_one_instrument() {
    let s = default_session();
    assert_eq!(s.instruments.len(), 1);
    assert!(s.groups.is_empty());
    assert!(s.piano.is_none());
}

#[test]
fn presets_are_found_by_name_and_by_id() {
    let preset = |name: &str, id: &str| Preset { name: name.into(), id: id.into() };
    let presets = vec![preset("Hall", "a"), preset("Room", "b"), preset("b", "c")];
    assert_eq!(apply_preset(&presets, "Room"), Some(1));
    assert_eq!(apply_preset(&presets, "c"), Some(2));
    // A name comes before an id.
    assert_eq!(apply_preset(&presets, "b"), Some(2));
    assert_eq!(apply_preset(&presets, "Plate"), None);
}

#[test]
fn usual_values_are_known() {
    assert!(is_default_volume_f32(&b(1.0)) && !is_default_volume_f32(&b(0.9)));
    assert!(is_default_pan_f32(&b(0.0)) && is_default_pan_f32(&b(-0.0)));
    assert!(!is_default_pan_f32(&b(0.1)));
    assert!(is_default_mix_f32(&b(1.0)) && !is_default_mix_f32(&b(f32::NAN)));
    assert!(is_default_volume_f32_opt(&None) && is_default_volume_f32_opt(&Some(b(1.0))));
    assert!(!is_default_volume_f32_opt(&Some(b(0.5))));
    assert!(is_default_pitch_bend_range_opt(&None));
    assert!(is_default_pitch_bend_range_opt(&Some(w(2.0))));
    assert!(!is_default_pitch_bend_range_opt(&Some(w(12.0))));
    assert!(is_true(&true) && !is_true(&false));
    assert!(is_zero_i8(&0) && !is_zero_i8(&-1));
    assert!(is_lfo_type(&"lfo".to_string()) && !is_lfo_type(&"midi".to_string()));
}

#[test]
fn settings_are_written_in_order_with_the_last_value() {
    let setting = |name: &str, v: f32| ParamSetting { name: name.into(), value: b(v) };
    let sorted = sort_settings(&vec![
        setting("mix", 1.0),
        setting("attack", 2.0),
        setting("mix", 3.0),
        setting("Zoom", 4.0),
    ]);
    let pairs: Vec<(&str, f32)> = sorted.iter().map(|s| (s.name.as_str(), f(s.value))).collect();
    assert_eq!(pairs, vec![("Zoom", 4.0), ("attack", 2.0), ("mix", 3.0)]);
}

#[test]
fn every_kind_of_modulator_is_written() {
    let lane = |field: CrossModField| match field {
        CrossModField::Rate => ModTargetKind::ModulatorRate { mod_index: 3 },
        CrossModField::Attack => ModTargetKind::ModulatorAttack { mod_index: 3 },
        CrossModField::Decay => ModTargetKind::ModulatorDecay { mod_index: 3 },
        CrossModField::Sustain => ModTargetKind::ModulatorSustain { mod_index: 3 },
        CrossModField::Release => ModTargetKind::ModulatorRelease { mod_index: 3 },
        CrossModField::Depth(i) => ModTargetKind::ModulatorDepth { mod_index: 3, target_index: i },
    };
    let targets = [
        CrossModField::Rate,
        CrossModField::Attack,
        CrossModField::Decay,
        CrossModField::Sustain,
        CrossModField::Release,
        CrossModField::Depth(7),
    ]
    .into_iter()
    .map(|field| target(lane(field), "", 0.5, 0))
    .collect();
    let out = mods_to_out(&vec![SaveModulator {
        source: SaveModSource::Envelope {
            attack: b(0.1),
            decay: b(0.2),
            sustain: b(0.3),
            release: b(0.4),
        },
        targets,
    }]);
    assert_eq!(out[0].mod_type, "envelope");
    assert_eq!(out[0].waveform, None);
    assert_eq!(out[0].rate, None);
    assert_eq!(out[0].release, Some(b(0.4)));
    let t = &out[0].targets;
    assert_eq!(t[0].mod_rate, Some(3));
    assert_eq!(t[1].mod_attack, Some(3));
    assert_eq!(t[2].mod_decay, Some(3));
    assert_eq!(t[3].mod_sustain, Some(3));
    assert_eq!(t[4].mod_release, Some(3));
    assert_eq!(t[5].mod_depth, Some(vec![3, 7]));
    assert!(t.iter().all(|t| t.param.is_none() && t.slot.is_none()));
}

#[test]
fn a_whole_session_comes_back() {
    let entry = |source: &str, note: &str| RemapConfig {
        source: source.into(),
        target: RemapTarget { note: note.into(), detune: w(0.0) },
    };
    let instruments = vec![
        SaveInstrumentSlot {
            range: Some((36, 72)),
            transpose: -5,
            group: Some(1),
            ..slot(SaveInstrument {
                params: vec![
                    ParamSetting { name: "tone".into(), value: b(0.5) },
                    ParamSetting { name: "cutoff".into(), value: b(0.25) },
                ],
                remap: vec![entry("E4", "D4"), entry("C4", "B3")],
                ..instrument("builtin:sine")
            })
        },
        SaveInstrumentSlot {
            pattern: Some(SavePattern {
                bpm: b(90.0),
                length_beats: b(2.0),
                looping: false,
                base_note: Some(64),
                events: vec![(0, 0x90, 64, 90), (10, 0x90, 60, 80), (99, 0x80, 64, 0)],
                enabled: true,
                in_key: false,
            }),
            effects: vec![effect("builtin:reverb", 1.0)],
            ..slot(instrument("builtin:osc"))
        },
    ];
    let group = |name: &str| SaveGroup {
        name: Some(name.into()),
        volume: b(1.0),
        pan: b(0.0),
        effects: vec![],
        modulators: vec![],
    };
    let piano = PianoConfig { scale: Some("C major".into()), locked: false };
    let raw = save_text(&instruments, &vec![group("Pad"), group("Bass")], Some(piano));

    let config = load_text(&raw).unwrap();
    assert_eq!(config.instruments.len(), 2);
    let first = &config.instruments[0];
    assert_eq!((first.range, first.transpose, first.group), (Some((36, 72)), -5, Some(1)));
    let plugin = first.instrument.as_ref().unwrap();
    let mut names: Vec<&str> = plugin.params.iter().map(|p| p.name.as_str()).collect();
    names.sort();
    assert_eq!(names, vec!["cutoff", "tone"]);
    let mut notes: Vec<(&str, &str)> =
        plugin.remap.iter().map(|r| (r.source.as_str(), r.target.note.as_str())).collect();
    notes.sort();
    assert_eq!(notes, vec![("C4", "B3"), ("E4", "D4")]);
    let second = &config.instruments[1];
    let pattern = second.pattern.as_ref().unwrap();
    assert_eq!(pattern.base_note, Some(64));
    assert_eq!(pattern.events, instruments[1].pattern.as_ref().unwrap().events);
    assert!(!pattern.looping && pattern.enabled && !pattern.in_key);
    assert_eq!(second.effects[0].plugin, "builtin:reverb");
    let groups: Vec<Option<&str>> = config.groups.iter().map(|g| g.name.as_deref()).collect();
    assert_eq!(groups, vec![Some("Pad"), Some("Bass")]);
    assert_eq!(config.piano.unwrap().scale.as_deref(), Some("C major"));
}

#[test]
fn gains_come_back() {
    let instruments = vec![SaveInstrumentSlot {
        effects: vec![effect("builtin:reverb", 0.3), effect("builtin:reverb", 1.0)],
        ..slot(SaveInstrument {
            volume: b(0.8),
            pitch_bend_range: w(12.0),
            params: vec![ParamSetting { name: "tone".into(), value: b(0.1) }],
            remap: vec![RemapConfig {
                source: "E4".into(),
                target: RemapTarget { note: "D4".into(), detune: w(-0.5) },
            }],
            ..instrument("builtin:sine")
        })
    }];
    let group = |volume: f32, pan: f32| SaveGroup {
        name: None,
        volume: b(volume),
        pan: b(pan),
        effects: vec![],
        modulators: vec![],
    };
    let groups = vec![group(0.7, -0.3), group(1.0, 0.0), group(0.2, 3.0)];
    let config = load_text(&save_text(&instruments, &groups, None)).unwrap();

    let plugin = config.instruments[0].instrument.as_ref().unwrap();
    assert_eq!(d(plugin.volume), 0.8f32 as f64);
    assert_eq!(d(plugin.pitch_bend_range), 12.0);
    assert_eq!(f(plugin.params[0].value), 0.1);
    assert_eq!(d(plugin.remap[0].target.detune), -0.5);
    let mixes: Vec<f64> = config.instruments[0].effects.iter().map(|e| d(e.mix)).collect();
    assert_eq!(mixes, vec![0.3f32 as f64, 1.0]);
    let gains: Vec<(f32, f32)> = config.groups.iter().map(|g| (f(g.volume), f(g.pan))).collect();
    assert_eq!(gains, vec![(0.7, -0.3), (1.0, 0.0), (0.2, 1.0)]);
}

#[test]
fn widening_keeps_the_number() {
    let tiny = f32::from_bits(1);
    for v in [
        0.0,
        -0.0,
        1.0,
        -1.0,
        0.8,
        -0.3,
        12345.678,
        f32::MAX,
        f32::MIN_POSITIVE,
        tiny,
        -tiny,
        f32::from_bits(0x0040_0000),
        f32::from_bits(0x007f_ffff),
        f32::from_bits(0x0012_3456),
        f32::INFINITY,
        f32::NEG_INFINITY,
    ] {
        assert_eq!(b(v).widen(), w(v as f64), "{v}");
    }
}
