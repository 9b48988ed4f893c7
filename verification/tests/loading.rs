use tang::assembly::{
    session_is_loaded, session_setup, LoadedInstrument, LoadedPlugin, LoadedSlot,
};
use tang::command::{GraphCommand, PatternTiming};
use tang::config::{
    EffectConfig, GroupConfig, InstrumentSlotConfig, ModTargetConfig, ModulatorConfig, ParamSetting,
    ParameterInfo, PatternConfig, PluginConfig, SessionConfig,
};
use tang::graph::AudioGraph;
use tang::lane::PluginHandle;
use tang::loader::{
    build_mod_source, lane_modulators_fit, load_group_modulators, load_lane_modulators,
    member_mod_field_info, LoadedModSource, LoadedModTarget, LoadedModulator,
};
use tang::modulation::{CrossModField, LfoWaveform, ModSource, ModTargetKind};
use tang::scalar::{F32Bits, F64Bits};
use tang::setup::{
    group_members, group_setup, instrument_setup, lane_setup, param_overrides, pattern_setup,
    total_slots, transpose_setup, OverrideOwner,
};

fn b(v: f32) -> F32Bits {
    F32Bits { bits: v.to_bits() }
}

fn w(v: f64) -> F64Bits {
    F64Bits { bits: v.to_bits() }
}

fn shown(commands: &[GraphCommand]) -> Vec<String> {
    commands.iter().map(|c| format!("{c:?}").split([' ', '{']).next().unwrap().to_string()).collect()
}

fn param(name: &str, index: u32) -> ParameterInfo {
    ParameterInfo {
        name: name.into(),
        index,
        min: b(0.0),
        max: b(100.0),
        default: b(50.0),
        labels: None,
    }
}

fn modulator(targets: Vec<ModTargetConfig>) -> ModulatorConfig {
    ModulatorConfig {
        mod_type: "lfo".into(),
        waveform: "saw".into(),
        rate: b(2.0),
        attack: b(0.01),
        decay: b(0.3),
        sustain: b(0.7),
        release: b(0.5),
        midi_cc: None,
        midi_pitch_bend: false,
        targets,
    }
}

fn on(param: Option<&str>, slot: usize) -> ModTargetConfig {
    ModTargetConfig {
        param: param.map(|p| p.to_string()),
        slot,
        member: None,
        bus: None,
        mod_rate: None,
        mod_depth: None,
        mod_attack: None,
        mod_decay: None,
        mod_sustain: None,
        mod_release: None,
        depth: b(0.25),
    }
}

fn plugin(modulators: Vec<ModulatorConfig>) -> PluginConfig {
    PluginConfig {
        plugin: "builtin:oscillator".into(),
        preset: None,
        volume: w(1.0),
        pitch_bend_range: w(2.0),
        remap: vec![],
        params: vec![],
        modulators,
    }
}

fn effect(modulators: Vec<ModulatorConfig>) -> EffectConfig {
    EffectConfig {
        plugin: "builtin:reverb".into(),
        preset: None,
        mix: w(1.0),
        params: vec![],
        modulators,
    }
}

fn slot(instrument: Option<PluginConfig>, effects: Vec<EffectConfig>) -> InstrumentSlotConfig {
    InstrumentSlotConfig {
        range: None,
        transpose: 0,
        instrument,
        effects,
        pattern: None,
        group: None,
    }
}

#[test]
fn groups_and_lanes_are_set_up() {
    assert_eq!(shown(&group_setup(0, b(1.0), b(0.0))), ["AddGroup"]);
    assert_eq!(
        shown(&group_setup(3, b(0.5), b(-0.5))),
        ["AddGroup", "SetGroupVolume", "SetGroupPan"]
    );
    assert_eq!(shown(&lane_setup(0, None, None)), ["AddInstrument"]);
    match &lane_setup(4, Some((1, 2)), Some(9))[..] {
        [GraphCommand::AddInstrument { range }, GraphCommand::SetLaneGroup { inst, group }] => {
            assert_eq!((*range, *inst, *group), (Some((1, 2)), 4, Some(9)));
        }
        other => panic!("{other:?}"),
    }
    let handle = PluginHandle { id: 1, outputs: 2, sample_rate: b(48000.0) };
    assert_eq!(shown(&instrument_setup(0, handle, None, w(1.0), b(1.0))), ["SwapInstrument"]);
    assert_eq!(
        shown(&instrument_setup(0, handle, None, w(0.5), b(0.5))),
        ["SwapInstrument", "SetVolume"]
    );
    assert!(transpose_setup(0, 0).is_none());
    match transpose_setup(1, -12) {
        Some(GraphCommand::SetTranspose { inst, semitones }) => {
            assert_eq!((inst, semitones), (1, -12));
        }
        other => panic!("{other:?}"),
    }
}

#[test]
fn settings_override_parameters() {
    let setting = |name: &str, v: f32| ParamSetting { name: name.into(), value: b(v) };
    let params = vec![param("attack", 0), param("release", 1), param("far", 7)];
    let o = param_overrides(
        OverrideOwner::Chain { inst: 2, slot: 1 },
        &params,
        &vec![b(1.0), b(2.0)],
        &vec![setting("release", 5.0), setting("none", 6.0), setting("far", 7.0)],
    );
    assert_eq!(o.values, vec![b(1.0), b(5.0)]);
    assert_eq!(o.unknown, vec![1]);
    match &o.commands[..] {
        [GraphCommand::SetParameter { inst, slot, param_index, value }, GraphCommand::SetParameter { param_index: far, .. }] =>
        {
            assert_eq!((*inst, *slot, *param_index, *value, *far), (2, 1, 1, b(5.0), 7));
        }
        other => panic!("{other:?}"),
    }
    let o = param_overrides(
        OverrideOwner::Bus { group: 1, index: 0 },
        &params,
        &vec![],
        &vec![setting("attack", 1.0)],
    );
    assert_eq!(shown(&o.commands), ["SetGroupParameter"]);
}

#[test]
fn patterns_are_set_up() {
    let mut p = PatternConfig {
        bpm: b(90.0),
        length_beats: b(4.0),
        looping: true,
        base_note: Some(60),
        events: vec![(5, 0x90, 60, 100)],
        enabled: false,
        in_key: true,
    };
    let commands = pattern_setup(1, &p, 128000);
    assert_eq!(shown(&commands), ["SetPattern", "SetGlobalBpm", "SetPatternLength"]);
    match &commands[0] {
        GraphCommand::SetPattern { inst, pattern, base_note, in_key } => {
            assert_eq!((*inst, *base_note, *in_key), (1, Some(60), true));
            assert_eq!(pattern.length_samples, 128000);
            let e = &pattern.events[0];
            assert_eq!((e.frame, e.status, e.note, e.velocity), (5, 0x90, 60, 100));
        }
        other => panic!("{other:?}"),
    }
    p.enabled = true;
    p.looping = false;
    assert_eq!(
        shown(&pattern_setup(1, &p, 128000)),
        ["SetPattern", "SetGlobalBpm", "SetPatternLength", "SetPatternEnabled", "SetPatternLooping"]
    );
}

#[test]
fn members_are_numbered_in_lane_order() {
    let groups = vec![Some(1), None, Some(0), Some(1)];
    assert_eq!(group_members(&groups, 1), vec![0, 3]);
    assert_eq!(group_members(&groups, 0), vec![2]);
    assert_eq!(group_members(&groups, 2), Vec::<usize>::new());
}

#[test]
fn plugins_are_counted() {
    let config = SessionConfig {
        instruments: vec![
            slot(Some(plugin(vec![])), vec![effect(vec![]), effect(vec![])]),
            slot(None, vec![effect(vec![])]),
        ],
        groups: vec![],
        piano: None,
    };
    assert_eq!(total_slots(&config), 4);
}

#[test]
fn modulator_sources_are_built() {
    let lfo = modulator(vec![]);
    let (source, loaded) = build_mod_source(&lfo);
    assert_eq!(
        source,
        ModSource::Lfo { waveform: LfoWaveform::Saw, rate: b(2.0), phase: b(0.0) }
    );
    match loaded {
        LoadedModSource::Lfo { waveform, rate } => {
            assert_eq!((waveform, rate), (LfoWaveform::Saw, b(2.0)));
        }
        other => panic!("{other:?}"),
    }
    // A waveform that is not known is a sine.
    let odd = ModulatorConfig { waveform: "noise".into(), ..modulator(vec![]) };
    match build_mod_source(&odd).0 {
        ModSource::Lfo { waveform, .. } => assert_eq!(waveform, LfoWaveform::Sine),
        other => panic!("{other:?}"),
    }
    let envelope = ModulatorConfig { mod_type: "envelope".into(), ..modulator(vec![]) };
    match build_mod_source(&envelope).0 {
        ModSource::Envelope { attack, decay, sustain, release, notes_held, .. } => {
            assert_eq!((attack, decay, sustain, release), (b(0.01), b(0.3), b(0.7), b(0.5)));
            assert_eq!(notes_held, 0);
        }
        other => panic!("{other:?}"),
    }
}

#[test]
fn lane_modulators_are_loaded() {
    let config = slot(
        Some(plugin(vec![modulator(vec![
            on(Some("cutoff"), 0),
            on(Some("mix"), 1),
            on(Some("missing"), 0),
            on(Some("cutoff"), 9),
        ])])),
        vec![effect(vec![modulator(vec![
            // The slot of an effect's modulator is that effect.
            on(Some("mix"), 0),
            // Siblings are numbered from the effect's own modulators.
            ModTargetConfig { mod_rate: Some(0), ..on(None, 0) },
        ])])],
    );
    assert!(lane_modulators_fit(&config));
    let chain = vec![vec![param("cutoff", 3)], vec![param("mix", 4)]];
    let rack = load_lane_modulators(&config, &chain, 6);
    assert_eq!(
        shown(&rack.commands),
        [
            "InsertModulator",
            "AddModTarget",
            "AddModTarget",
            "InsertModulator",
            "AddModTarget",
            "AddModTarget",
        ]
    );
    let kinds: Vec<Vec<ModTargetKind>> =
        rack.modulators.iter().map(|m| m.targets.iter().map(|t| t.kind).collect()).collect();
    assert_eq!(
        kinds,
        vec![
            vec![
                ModTargetKind::PluginParam { slot: 0, param_index: 3 },
                ModTargetKind::PluginParam { slot: 1, param_index: 4 },
            ],
            vec![
                ModTargetKind::PluginParam { slot: 1, param_index: 4 },
                ModTargetKind::ModulatorRate { mod_index: 1 },
            ],
        ]
    );
    let sibling = &rack.modulators[1].targets[1];
    assert_eq!(sibling.param_name, "Mod 1 rate");
    assert_eq!((sibling.param_min, sibling.param_max), (b(0.01), b(50.0)));
    match &rack.commands[1] {
        GraphCommand::AddModTarget { inst, mod_index, target } => {
            assert_eq!((*inst, *mod_index), (6, 0));
            assert_eq!(
                (target.base_value, target.param_min, target.param_max, target.depth),
                (b(50.0), b(0.0), b(100.0), b(0.25))
            );
        }
        other => panic!("{other:?}"),
    }
}

fn loaded(source: LoadedModSource) -> LoadedModulator {
    LoadedModulator {
        source,
        targets: vec![LoadedModTarget {
            slot: 0,
            param_name: "cutoff".into(),
            kind: ModTargetKind::PluginParam { slot: 0, param_index: 0 },
            depth: b(0.9),
            param_min: b(0.0),
            param_max: b(1.0),
        }],
    }
}

#[test]
fn modulator_fields_have_ranges() {
    let lfo = loaded(LoadedModSource::Lfo { waveform: LfoWaveform::Sine, rate: b(3.0) });
    let envelope = loaded(LoadedModSource::Envelope {
        attack: b(1.0),
        decay: b(2.0),
        sustain: b(0.5),
        release: b(4.0),
    });
    for (m, field, base, min, max) in [
        (&lfo, CrossModField::Rate, 3.0, 0.01, 50.0),
        (&lfo, CrossModField::Attack, 0.01, 0.001, 10.0),
        (&lfo, CrossModField::Decay, 0.3, 0.001, 10.0),
        (&lfo, CrossModField::Sustain, 0.7, 0.0, 1.0),
        (&lfo, CrossModField::Release, 0.5, 0.001, 10.0),
        (&lfo, CrossModField::Depth(0), 0.9, 0.0, 1.0),
        (&lfo, CrossModField::Depth(1), 0.5, 0.0, 1.0),
        (&envelope, CrossModField::Rate, 1.0, 0.01, 50.0),
        (&envelope, CrossModField::Attack, 1.0, 0.001, 10.0),
        (&envelope, CrossModField::Decay, 2.0, 0.001, 10.0),
        (&envelope, CrossModField::Sustain, 0.5, 0.0, 1.0),
        (&envelope, CrossModField::Release, 4.0, 0.001, 10.0),
    ] {
        assert_eq!(member_mod_field_info(m, field), (b(base), b(min), b(max)), "{field:?}");
    }
}

#[test]
fn group_modulators_are_loaded() {
    let mods = vec![modulator(vec![
        ModTargetConfig { member: Some(1), ..on(Some("cutoff"), 0) },
        ModTargetConfig { bus: Some(0), ..on(Some("mix"), 0) },
        ModTargetConfig { member: Some(1), mod_depth: Some(vec![0, 2]), ..on(None, 0) },
        ModTargetConfig { member: Some(5), ..on(Some("cutoff"), 0) },
        ModTargetConfig { member: Some(0), mod_rate: Some(0), ..on(None, 0) },
        on(Some("cutoff"), 0),
    ])];
    let member_mods = vec![loaded(LoadedModSource::Lfo {
        waveform: LfoWaveform::Sine,
        rate: b(3.0),
    })];
    let rack = load_group_modulators(
        &mods,
        2,
        &vec![&vec![], &vec![vec![param("cutoff", 3)]]],
        &vec![&[], &member_mods[..]],
        &vec![vec![param("mix", 4)]],
    );
    let kinds: Vec<ModTargetKind> = rack.modulators[0].targets.iter().map(|t| t.kind).collect();
    assert_eq!(
        kinds,
        vec![
            ModTargetKind::GroupMember { member: 1, slot: 0, param_index: 3 },
            ModTargetKind::GroupBus { effect_index: 0, param_index: 4 },
            ModTargetKind::GroupMemberMod {
                member: 1,
                mod_index: 0,
                field: CrossModField::Depth(2),
            },
        ]
    );
    assert_eq!(rack.modulators[0].targets[2].param_name, "M1 Mod0 depth 2");
    assert_eq!(
        shown(&rack.commands),
        ["InsertGroupModulator", "AddGroupModTarget", "AddGroupModTarget", "AddGroupModTarget"]
    );
}

#[test]
fn bits_agree_with_floats() {
    let values = [
        0.0f32,
        -0.0,
        1.0,
        -1.0,
        0.5,
        2.0,
        1.0 + f32::EPSILON,
        1.0 - f32::EPSILON,
        1.0 - f32::EPSILON / 2.0,
        1.0 + 2.0 * f32::EPSILON,
        f32::EPSILON,
        f32::EPSILON / 2.0,
        -f32::EPSILON,
        f32::MIN_POSITIVE / 4.0,
        f32::MAX,
        f32::INFINITY,
        f32::NEG_INFINITY,
        f32::NAN,
    ];
    for x in values {
        assert_eq!(b(x).is_off_unity(), (x - 1.0).abs() > f32::EPSILON, "{x}");
        assert_eq!(b(x).is_off_zero(), x.abs() > f32::EPSILON, "{x}");
        assert_eq!(b(x).is_unity(), (x - 1.0).abs() < f32::EPSILON, "{x}");
        assert_eq!(b(x).is_rescaling(), (x - 1.0).abs() >= f32::EPSILON, "{x}");
        assert_eq!(b(x).is_negligible(), x.abs() < f32::EPSILON, "{x}");
        for y in values {
            assert_eq!(b(x).is_below(b(y)), x < y, "{x} {y}");
        }
        if !x.is_nan() {
            assert_eq!(f32::from_bits(b(x).clamp_unit().bits), x.clamp(-1.0, 1.0), "{x}");
            assert_eq!(f32::from_bits(b(x).limit(b(0.1), b(0.9)).bits), x.clamp(0.1, 0.9), "{x}");
        }
    }
    for x in [1.0f64, 0.999, 1.0 + f64::EPSILON, f64::NAN, -1.0] {
        assert_eq!(w(x).is_off_unity(), (x - 1.0).abs() > f64::EPSILON, "{x}");
    }
}

fn loaded_plugin(id: u64, outputs: usize, params: Vec<ParameterInfo>) -> LoadedPlugin {
    let baselines = params.iter().map(|p| p.default).collect();
    LoadedPlugin {
        handle: PluginHandle { id, outputs, sample_rate: b(44100.0) },
        params,
        baselines,
    }
}

fn small_session() -> (SessionConfig, Vec<LoadedSlot>, Vec<Vec<LoadedPlugin>>) {
    let setting = |name: &str, v: f32| ParamSetting { name: name.into(), value: b(v) };
    let lead = InstrumentSlotConfig {
        range: Some((60, 127)),
        transpose: 12,
        group: Some(0),
        pattern: Some(PatternConfig {
            bpm: b(90.0),
            length_beats: b(8.0),
            looping: false,
            base_note: Some(60),
            events: vec![(0, 0x90, 60, 100)],
            enabled: false,
            in_key: false,
        }),
        ..slot(
            Some(PluginConfig {
                volume: w(0.5),
                params: vec![setting("cutoff", 7.0), setting("colour", 1.0)],
                ..plugin(vec![modulator(vec![on(Some("mix"), 1)])])
            }),
            vec![effect(vec![]), effect(vec![])],
        )
    };
    let config = SessionConfig {
        instruments: vec![
            lead,
            InstrumentSlotConfig { group: Some(9), ..slot(None, vec![]) },
        ],
        groups: vec![GroupConfig {
            name: None,
            volume: b(1.0),
            pan: b(-3.0),
            effects: vec![effect(vec![])],
            modulators: vec![modulator(vec![
                ModTargetConfig { member: Some(0), mod_rate: Some(0), ..on(None, 0) },
                ModTargetConfig { bus: Some(0), ..on(Some("level"), 0) },
            ])],
        }],
        piano: None,
    };
    let slots = vec![
        LoadedSlot {
            instrument: Some(LoadedInstrument {
                plugin: loaded_plugin(1, 2, vec![param("cutoff", 0)]),
                remapper: None,
                gain: b(0.5),
            }),
            effects: vec![
                loaded_plugin(2, 2, vec![param("mix", 0)]),
                // The graph has two channels, so this one finds no place.
                loaded_plugin(3, 1, vec![]),
            ],
            pattern_length: 1000,
        },
        LoadedSlot { instrument: None, effects: vec![], pattern_length: 0 },
    ];
    let buses = vec![vec![loaded_plugin(4, 2, vec![param("level", 0)])]];
    (config, slots, buses)
}

#[test]
fn sessions_are_set_up_in_order() {
    let (config, slots, buses) = small_session();
    assert!(session_is_loaded(&config, &slots, &buses));
    let setup = session_setup(&config, slots, buses);
    assert_eq!(
        shown(&setup.commands),
        [
            "AddGroup",
            "SetGroupPan",
            "InsertGroupEffect",
            "AddInstrument",
            "SetLaneGroup",
            "SwapInstrument",
            "SetVolume",
            "SetParameter",
            "InsertEffect",
            "InsertEffect",
            "InsertModulator",
            "AddModTarget",
            "SetTranspose",
            "SetPattern",
            "SetGlobalBpm",
            "SetPatternLength",
            "SetPatternLooping",
            "AddInstrument",
            "SetLaneGroup",
            "InsertGroupModulator",
            "AddGroupModTarget",
            "AddGroupModTarget",
        ]
    );
    assert_eq!(setup.lanes[0].values, vec![vec![b(7.0)], vec![b(50.0)], vec![]]);
    assert_eq!(setup.lanes[0].unknown, vec![vec![1], vec![], vec![]]);
    assert_eq!(setup.lanes[0].modulators.len(), 1);
    assert_eq!(setup.lanes[1].values, vec![Vec::<F32Bits>::new()]);
    assert_eq!(setup.groups[0].values, vec![vec![b(50.0)]]);
    assert_eq!(setup.groups[0].modulators[0].targets[0].param_name, "M0 Mod0 rate");
}

#[test]
fn loaded_sessions_fill_the_graph() {
    let (config, slots, buses) = small_session();
    let setup = session_setup(&config, slots, buses);
    let mut graph = AudioGraph::new(2);
    let timing = PatternTiming { beat_length: 0, pattern_length: 0 };
    for command in setup.commands {
        assert!(graph.accepts(&command));
        graph.apply(command, timing);
    }
    assert_eq!((graph.instruments.len(), graph.groups.len()), (2, 1));
    let lane = &graph.instruments[0];
    assert_eq!((lane.range, lane.group, lane.transpose), (Some((60, 127)), Some(0), 12));
    assert_eq!(lane.volume, b(0.5));
    assert_eq!(lane.instrument.map(|p| p.id), Some(1));
    let ids: Vec<u64> = lane.effects.iter().map(|p| p.id).collect();
    assert_eq!(ids, vec![2]);
    assert_eq!(lane.mix_values, vec![w(1.0)]);
    let kinds: Vec<ModTargetKind> = lane.modulators[0].targets.iter().map(|t| t.kind).collect();
    assert_eq!(kinds, vec![ModTargetKind::PluginParam { slot: 1, param_index: 0 }]);
    // A pattern with events plays, whatever the session says.
    assert!(lane.pattern.enabled && !lane.pattern.looping);
    assert_eq!(lane.pattern.pattern.length_samples, 1000);
    assert_eq!(lane.pattern.length_beats, b(8.0));
    // There is no such group to join.
    assert_eq!(graph.instruments[1].group, None);
    let bus = &graph.groups[0];
    assert_eq!((bus.volume, bus.pan), (b(1.0), b(-1.0)));
    assert_eq!(bus.effects[0].id, 4);
    assert_eq!(bus.modulators[0].targets.len(), 2);
    assert_eq!(bus.modulators[0].targets[0].base_value, b(2.0));
    assert_eq!(bus.modulators[0].sample_rate, b(44100.0));
}

#[test]
fn a_session_that_is_not_loaded_is_noticed() {
    let (config, slots, mut buses) = small_session();
    buses[0].clear();
    assert!(!session_is_loaded(&config, &slots, &buses));
    let (config, mut slots, buses) = small_session();
    slots[0].instrument = None;
    assert!(!session_is_loaded(&config, &slots, &buses));
    let (mut config, slots, buses) = small_session();
    let far = ModTargetConfig { mod_rate: Some(usize::MAX), ..on(None, 0) };
    config.instruments[0].effects[0].modulators.push(modulator(vec![far]));
    assert!(!session_is_loaded(&config, &slots, &buses));
}
