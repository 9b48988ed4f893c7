use tang::modulation::{
    fixup_cross_mod_after_remove, fixup_group_bus_after_remove, fixup_group_member_after_remove,
    fixup_group_member_mod_after_remove, fixup_slots_after_remove, remap_group_bus_after_reorder,
    remap_slots_after_reorder, shift_group_member_after_insert, shift_slots_after_insert,
    CrossModField, LfoWaveform, ModSource, ModTarget, ModTargetKind, Modulator,
};
use tang::rack::{apply_cross_mod, cross_mod_routes};
use tang::routes::{chain_routes, Contribution, ParamDest};
use tang::scalar::F32Bits;

fn b(v: f32) -> F32Bits {
    F32Bits { bits: v.to_bits() }
}

fn lfo() -> Modulator {
    Modulator::new(
        ModSource::Lfo { waveform: LfoWaveform::Sine, rate: b(1.0), phase: b(0.0) },
        b(48000.0),
    )
}

fn target(kind: ModTargetKind) -> ModTarget {
    ModTarget {
        kind,
        depth: b(0.5),
        base_value: b(0.5),
        param_min: b(0.0),
        param_max: b(1.0),
    }
}

fn with_target(kind: ModTargetKind) -> Modulator {
    let mut m = lfo();
    m.targets.push(target(kind));
    m
}

#[test]
fn group_member_target_fixups() {
    let mk = |member: usize| {
        with_target(ModTargetKind::GroupMember { member, slot: 0, param_index: 0 })
    };
    let members = |mods: &[Modulator]| -> Vec<Option<usize>> {
        mods.iter()
            .map(|m| match m.targets.first().map(|t| t.kind) {
                Some(ModTargetKind::GroupMember { member, .. }) => Some(member),
                _ => None,
            })
            .collect()
    };

    // Targets at members 0, 1, 2; member 1 leaves.
    let mut mods = vec![mk(0), mk(1), mk(2)];
    fixup_group_member_after_remove(&mut mods, 1);
    assert_eq!(members(&mods), vec![Some(0), None, Some(1)]);

    // A member joins at ordinal 0: existing ordinals shift up.
    shift_group_member_after_insert(&mut mods, 0);
    assert_eq!(members(&mods), vec![Some(1), None, Some(2)]);

    // The same ordinal fixups apply to targets on members' modulators.
    let mk_mm = |member: usize| {
        with_target(ModTargetKind::GroupMemberMod {
            member,
            mod_index: 0,
            field: CrossModField::Rate,
        })
    };
    let mm_members = |mods: &[Modulator]| -> Vec<Option<usize>> {
        mods.iter()
            .map(|m| match m.targets.first().map(|t| t.kind) {
                Some(ModTargetKind::GroupMemberMod { member, .. }) => Some(member),
                _ => None,
            })
            .collect()
    };
    let mut mm = vec![mk_mm(0), mk_mm(1), mk_mm(2)];
    fixup_group_member_after_remove(&mut mm, 1);
    assert_eq!(mm_members(&mm), vec![Some(0), None, Some(1)]);

    // Member 0's modulator 1 deleted: targets on it drop, later ones shift.
    let mk_mm_idx = |mod_index: usize| {
        with_target(ModTargetKind::GroupMemberMod {
            member: 0,
            mod_index,
            field: CrossModField::Rate,
        })
    };
    let mm_idx = |mods: &[Modulator]| -> Vec<Option<usize>> {
        mods.iter()
            .map(|m| match m.targets.first().map(|t| t.kind) {
                Some(ModTargetKind::GroupMemberMod { mod_index, .. }) => Some(mod_index),
                _ => None,
            })
            .collect()
    };
    let mut mmi = vec![mk_mm_idx(0), mk_mm_idx(1), mk_mm_idx(2)];
    fixup_group_member_mod_after_remove(&mut mmi, 0, 1);
    assert_eq!(mm_idx(&mmi), vec![Some(0), None, Some(1)]);
}

#[test]
fn slot_remap_helpers() {
    // A lane modulator with targets on instrument (0), effect 1 (slot 2),
    // and effect 2 (slot 3).
    let slots = |mods: &[Modulator]| -> Vec<usize> {
        mods[0]
            .targets
            .iter()
            .filter_map(|t| match t.kind {
                ModTargetKind::PluginParam { slot, .. } => Some(slot),
                _ => None,
            })
            .collect()
    };
    let make = || {
        let mut m = lfo();
        for slot in [0, 2, 3] {
            m.targets.push(target(ModTargetKind::PluginParam { slot, param_index: 0 }));
        }
        vec![m]
    };

    // Insert an effect at index 0 (slot 1): slots >= 1 shift up.
    let mut mods = make();
    shift_slots_after_insert(&mut mods, 0);
    assert_eq!(slots(&mods), vec![0, 3, 4]);

    // Remove effect at index 0 (slot 1): nothing on slot 1, slots > 1 down.
    let mut mods = make();
    fixup_slots_after_remove(&mut mods, 0);
    assert_eq!(slots(&mods), vec![0, 1, 2]);

    // Remove effect at index 1 (slot 2): drop that target, shift slot 3 to 2.
    let mut mods = make();
    fixup_slots_after_remove(&mut mods, 1);
    assert_eq!(slots(&mods), vec![0, 2]);

    // Reorder effect from index 0 (slot 1) to index 2 (slot 3): effect at
    // slot 2 goes to 1, slot 3 to 2 (the moved one isn't targeted here).
    let mut mods = make();
    remap_slots_after_reorder(&mut mods, 0, 2);
    assert_eq!(slots(&mods), vec![0, 1, 2]);
}

#[test]
fn cross_mod_targets_follow_their_siblings() {
    let mut mods = vec![
        with_target(ModTargetKind::ModulatorRate { mod_index: 2 }),
        lfo(),
        with_target(ModTargetKind::ModulatorDepth { mod_index: 1, target_index: 0 }),
    ];
    mods.remove(1);
    fixup_cross_mod_after_remove(&mut mods, 1);
    assert_eq!(mods[0].targets[0].kind, ModTargetKind::ModulatorRate { mod_index: 1 });
    assert!(mods[1].targets.is_empty());
}

#[test]
fn bus_targets_follow_their_effects() {
    let bus = |effect_index: usize| {
        with_target(ModTargetKind::GroupBus { effect_index, param_index: 0 })
    };
    let indices = |mods: &[Modulator]| -> Vec<Option<usize>> {
        mods.iter()
            .map(|m| match m.targets.first().map(|t| t.kind) {
                Some(ModTargetKind::GroupBus { effect_index, .. }) => Some(effect_index),
                _ => None,
            })
            .collect()
    };
    let mut mods = vec![bus(0), bus(1), bus(2)];
    remap_group_bus_after_reorder(&mut mods, 2, 0);
    assert_eq!(indices(&mods), vec![Some(1), Some(2), Some(0)]);
    fixup_group_bus_after_remove(&mut mods, 1);
    assert_eq!(indices(&mods), vec![None, Some(1), Some(0)]);
}

#[test]
fn no_modulator_drives_itself() {
    let mut mods = vec![
        with_target(ModTargetKind::ModulatorRate { mod_index: 0 }),
        with_target(ModTargetKind::ModulatorRate { mod_index: 0 }),
    ];
    let routes = cross_mod_routes(&mods);
    assert_eq!(routes.len(), 1);
    assert_eq!((routes[0].source, routes[0].mod_index), (1, 0));
    apply_cross_mod(&mut mods, &vec![b(7.0)]);
    match mods[0].source {
        ModSource::Lfo { rate, .. } => assert_eq!(rate, b(7.0)),
        _ => panic!("an LFO stays an LFO"),
    }
}

#[test]
fn targets_on_one_parameter_share_a_route() {
    let chain = |slot: usize| ModTargetKind::PluginParam { slot, param_index: 3 };
    let mods = vec![with_target(chain(0)), with_target(chain(1)), with_target(chain(0))];
    let routes = chain_routes(&mods);
    assert_eq!(routes.len(), 2);
    assert_eq!(routes[0].dest, ParamDest::Chain { slot: 0, param_index: 3 });
    assert_eq!(
        routes[0].contributions,
        vec![
            Contribution { modulator: 0, target: 0 },
            Contribution { modulator: 2, target: 0 },
        ]
    );
    assert_eq!(routes[1].dest, ParamDest::Chain { slot: 1, param_index: 3 });
}
