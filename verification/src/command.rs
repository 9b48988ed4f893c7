//! Commands that change the audio graph, and what each of them does.

use vstd::prelude::*;

use crate::bus::{fresh_group, GroupModel};
use crate::graph::{graph_rate, membership, GraphModel};
use crate::lane::{
    fresh_lane, lane_sample_rate, remapper_view, slot_plugin, LaneModel, PluginHandle,
};
use crate::modulation::{
    rack_after, rack_edit_fits, rack_rebased, CrossModField, LfoWaveform, ModSource, ModTarget,
    ModTargetKind, ModulatorModel, RackEdit,
};
use crate::pattern::{
    pattern_cleared, pattern_set, pattern_taken, recording_report, recording_started,
    recording_stopped, NotificationModel, Pattern, PatternNotification, PlayerModel,
};
use crate::rack::{clip, rack_commanded, RackCommand};
use crate::remap::NoteRemapper;
use crate::scalar::{F32Bits, F64Bits};

verus! {

/// Commands sent to the audio thread to change the graph. Slot 0 of a lane is
/// its instrument, slots 1..N are its effects.
#[allow(inconsistent_fields)]
#[derive(Debug)]
pub enum GraphCommand {
    /// Put an instrument into a lane, with buffers for its outputs.
    SwapInstrument {
        inst: usize,
        instrument: PluginHandle,
        inst_outputs: usize,
        remapper: Option<NoteRemapper>,
    },
    /// Insert an effect into a lane's chain.
    InsertEffect { inst: usize, index: usize, effect: PluginHandle, mix: F64Bits },
    /// Remove an effect from a lane's chain.
    RemoveEffect { inst: usize, index: usize },
    /// Move an effect within a lane's chain.
    ReorderEffect { inst: usize, from: usize, to: usize },
    /// Set a parameter of a plugin in a lane's chain.
    SetParameter { inst: usize, slot: usize, param_index: u32, value: F32Bits },
    /// Set the dry/wet mix of an effect.
    SetMix { inst: usize, slot: usize, value: F64Bits },
    /// Load a preset on a plugin in a lane's chain.
    LoadPreset { inst: usize, slot: usize, preset_id: String },
    /// Set a lane's volume.
    SetVolume { inst: usize, value: F32Bits },
    /// Set a lane's note range; `None` is all notes.
    SetInstrumentRange { inst: usize, range: Option<(u8, u8)> },
    /// Take the instrument out of a lane.
    ClearInstrument { inst: usize },
    /// Swap the instruments of two lanes, with buffers and remappers.
    SwapInstruments { inst_a: usize, inst_b: usize },
    /// Add an empty lane.
    AddInstrument { range: Option<(u8, u8)> },
    /// Remove a lane.
    RemoveInstrument { inst: usize },
    /// Add an empty group.
    AddGroup,
    /// Remove a group; its members become ungrouped.
    RemoveGroup { group: usize },
    /// Set or clear a lane's membership.
    SetLaneGroup { inst: usize, group: Option<usize> },
    /// Set a group's volume.
    SetGroupVolume { group: usize, value: F32Bits },
    /// Set a group's stereo balance.
    SetGroupPan { group: usize, value: F32Bits },
    /// Insert an effect into a group's bus.
    InsertGroupEffect { group: usize, index: usize, effect: PluginHandle, mix: F64Bits },
    /// Remove an effect from a group's bus.
    RemoveGroupEffect { group: usize, index: usize },
    /// Move an effect within a group's bus.
    ReorderGroupEffect { group: usize, from: usize, to: usize },
    /// Set the dry/wet mix of a bus effect.
    SetGroupMix { group: usize, index: usize, value: F64Bits },
    /// Set a parameter of a bus effect.
    SetGroupParameter { group: usize, index: usize, param_index: u32, value: F32Bits },
    /// Insert a modulator into a lane.
    InsertModulator { inst: usize, index: usize, source: ModSource },
    /// Remove a modulator from a lane.
    RemoveModulator { inst: usize, index: usize },
    /// Set the rate of a lane's LFO.
    SetModulatorRate { inst: usize, mod_index: usize, rate: F32Bits },
    /// Set the waveform of a lane's LFO.
    SetModulatorWaveform { inst: usize, mod_index: usize, waveform: LfoWaveform },
    /// Replace the source of a lane's modulator.
    SetModulatorSource { inst: usize, mod_index: usize, source: ModSource },
    /// Set the times and levels of a lane's envelope.
    SetModulatorEnvelopeParam {
        inst: usize,
        mod_index: usize,
        attack: F32Bits,
        decay: F32Bits,
        sustain: F32Bits,
        release: F32Bits,
    },
    /// Add a target to a lane's modulator.
    AddModTarget { inst: usize, mod_index: usize, target: ModTarget },
    /// Remove a target from a lane's modulator.
    RemoveModTarget { inst: usize, mod_index: usize, target_index: usize },
    /// Set the depth of a target of a lane's modulator.
    SetModTargetDepth { inst: usize, mod_index: usize, target_index: usize, depth: F32Bits },
    /// Insert a modulator into a group.
    InsertGroupModulator { group: usize, index: usize, source: ModSource },
    /// Remove a modulator from a group.
    RemoveGroupModulator { group: usize, index: usize },
    /// Set the rate of a group's LFO.
    SetGroupModulatorRate { group: usize, mod_index: usize, rate: F32Bits },
    /// Set the waveform of a group's LFO.
    SetGroupModulatorWaveform { group: usize, mod_index: usize, waveform: LfoWaveform },
    /// Replace the source of a group's modulator.
    SetGroupModulatorSource { group: usize, mod_index: usize, source: ModSource },
    /// Set the times and levels of a group's envelope.
    SetGroupModulatorEnvelopeParam {
        group: usize,
        mod_index: usize,
        attack: F32Bits,
        decay: F32Bits,
        sustain: F32Bits,
        release: F32Bits,
    },
    /// Add a target to a group's modulator.
    AddGroupModTarget { group: usize, mod_index: usize, target: ModTarget },
    /// Remove a target from a group's modulator.
    RemoveGroupModTarget { group: usize, mod_index: usize, target_index: usize },
    /// Set the depth of a target of a group's modulator.
    SetGroupModTargetDepth {
        group: usize,
        mod_index: usize,
        target_index: usize,
        depth: F32Bits,
    },
    /// Turn pattern playback on or off.
    SetPatternEnabled { inst: usize, enabled: bool },
    /// Start or stop pattern recording.
    SetPatternRecording { inst: usize, recording: bool },
    /// Put a pattern in place.
    SetPattern { inst: usize, pattern: Pattern, base_note: Option<u8>, in_key: bool },
    /// Drop a lane's pattern.
    ClearPattern { inst: usize },
    /// Swap the patterns of two lanes.
    SwapPatterns { inst_a: usize, inst_b: usize },
    /// Set the tempo of all lanes.
    SetGlobalBpm { bpm: F32Bits },
    /// Set the length of a lane's pattern, in beats.
    SetPatternLength { inst: usize, beats: F32Bits },
    /// Set whether a lane's pattern loops.
    SetPatternLooping { inst: usize, looping: bool },
    /// Set whether a lane's pattern transposes by scale degrees.
    SetPatternInKey { inst: usize, in_key: bool },
    /// Set a lane's transposition, in semitones.
    SetTranspose { inst: usize, semitones: i8 },
}

/// What has to be done outside the graph after a command.
#[derive(Debug)]
pub enum GraphEffect {
    /// Hand a plugin that is no longer used back to the main thread.
    Return { plugin: PluginHandle },
    /// Drop a plugin that found no place.
    Discard { plugin: PluginHandle },
    /// Set a parameter of a plugin.
    SetParameter { plugin: PluginHandle, param_index: u32, value: F32Bits },
    /// Load a preset on a plugin.
    LoadPreset { plugin: PluginHandle, preset_id: String },
    /// Report a completed recording.
    Notify { notification: PatternNotification },
}

/// What an effect holds.
pub enum EffectModel {
    Return { plugin: PluginHandle },
    Discard { plugin: PluginHandle },
    SetParameter { plugin: PluginHandle, param_index: u32, value: F32Bits },
    LoadPreset { plugin: PluginHandle, preset_id: Seq<char> },
    Notify { notification: NotificationModel },
}

impl View for GraphEffect {
    type V = EffectModel;

    open spec fn view(&self) -> EffectModel {
        match *self {
            GraphEffect::Return { plugin } => EffectModel::Return { plugin },
            GraphEffect::Discard { plugin } => EffectModel::Discard { plugin },
            GraphEffect::SetParameter { plugin, param_index, value } => {
                EffectModel::SetParameter { plugin, param_index, value }
            },
            GraphEffect::LoadPreset { plugin, preset_id } => EffectModel::LoadPreset {
                plugin,
                preset_id: preset_id@,
            },
            GraphEffect::Notify { notification } => EffectModel::Notify {
                notification: notification@,
            },
        }
    }
}

/// Effects as a sequence of models.
pub open spec fn effect_list(effects: Seq<GraphEffect>) -> Seq<EffectModel> {
    Seq::new(effects.len(), |i: int| effects[i]@)
}

/// Lengths at the tempo and sample rate of the lane that a command addresses,
/// in samples.
#[derive(Clone, Copy, Debug, PartialEq, Eq, Structural)]
pub struct PatternTiming {
    pub beat_length: u64,
    pub pattern_length: u64,
}

// ---------------------------------------------------------------------------
// Building blocks
// ---------------------------------------------------------------------------

/// The graph with lane `inst` changed; nothing where there is none.
pub open spec fn with_lane(
    g: GraphModel,
    inst: usize,
    f: spec_fn(LaneModel) -> LaneModel,
) -> GraphModel {
    if inst < g.lanes.len() {
        GraphModel { lanes: g.lanes.update(inst as int, f(g.lanes[inst as int])), ..g }
    } else {
        g
    }
}

/// The graph with group `group` changed; nothing where there is none.
pub open spec fn with_group(
    g: GraphModel,
    group: usize,
    f: spec_fn(GroupModel) -> GroupModel,
) -> GraphModel {
    if group < g.groups.len() {
        GraphModel { groups: g.groups.update(group as int, f(g.groups[group as int])), ..g }
    } else {
        g
    }
}

/// The graph with the modulators of a lane's group changed; `f` also gets the
/// lane's ordinal in the group.
pub open spec fn with_member_rack(
    g: GraphModel,
    inst: usize,
    f: spec_fn(Seq<ModulatorModel>, usize) -> Seq<ModulatorModel>,
) -> GraphModel {
    match membership(g.lanes, inst) {
        Some((group, ordinal)) => with_group(
            g,
            group,
            |b: GroupModel| GroupModel { modulators: f(b.modulators, ordinal), ..b },
        ),
        None => g,
    }
}

/// A list whose element at `from` has moved to `to`.
pub open spec fn moved<A>(s: Seq<A>, from: usize, to: usize) -> Seq<A> {
    s.remove(from as int).insert(to as int, s[from as int])
}

/// A setting of one lane.
#[derive(Clone, Copy, Debug)]
pub enum LaneSetting {
    Mix { slot: usize, mix: F64Bits },
    Volume { value: F32Bits },
    Range { range: Option<(u8, u8)> },
    Transpose { semitones: i8 },
    PatternEnabled { enabled: bool },
    PatternLength { beats: F32Bits },
    PatternLooping { looping: bool },
    PatternInKey { in_key: bool },
}

/// A lane with a setting changed. The mix of a slot without an effect is not
/// a setting.
pub open spec fn lane_set(l: LaneModel, setting: LaneSetting) -> LaneModel {
    match setting {
        LaneSetting::Mix { slot, mix } => if 0 < slot <= l.mix_values.len() {
            LaneModel { mix_values: l.mix_values.update(slot - 1, mix), ..l }
        } else {
            l
        },
        LaneSetting::Volume { value } => LaneModel { volume: value, ..l },
        LaneSetting::Range { range } => LaneModel { range, ..l },
        LaneSetting::Transpose { semitones } => LaneModel { transpose: semitones, ..l },
        LaneSetting::PatternEnabled { enabled } => LaneModel {
            pattern: PlayerModel { enabled, ..l.pattern },
            ..l
        },
        LaneSetting::PatternLength { beats } => LaneModel {
            pattern: PlayerModel { length_beats: beats, ..l.pattern },
            ..l
        },
        LaneSetting::PatternLooping { looping } => LaneModel {
            pattern: PlayerModel { looping, ..l.pattern },
            ..l
        },
        LaneSetting::PatternInKey { in_key } => LaneModel {
            pattern: PlayerModel { in_key, ..l.pattern },
            ..l
        },
    }
}

/// A setting of one group.
#[derive(Clone, Copy, Debug, PartialEq, Eq, Structural)]
pub enum GroupSetting {
    Volume { value: F32Bits },
    Pan { value: F32Bits },
    Mix { index: usize, mix: F64Bits },
}

/// A group with a setting changed. The pan stays within -1..=1.
pub open spec fn group_set(b: GroupModel, setting: GroupSetting) -> GroupModel {
    match setting {
        GroupSetting::Volume { value } => GroupModel { volume: value, ..b },
        GroupSetting::Pan { value } => GroupModel { pan: value.clamped(), ..b },
        GroupSetting::Mix { index, mix } => if index < b.mix_values.len() {
            GroupModel { mix_values: b.mix_values.update(index as int, mix), ..b }
        } else {
            b
        },
    }
}

// ---------------------------------------------------------------------------
// Chain commands
// ---------------------------------------------------------------------------

/// A lane with an effect inserted; modulation targets stay on their plugins.
pub open spec fn effect_inserted(
    l: LaneModel,
    index: usize,
    effect: PluginHandle,
    mix: F64Bits,
) -> LaneModel {
    let at = clip(index, l.effects.len());
    LaneModel {
        effects: l.effects.insert(at, effect),
        mix_values: l.mix_values.insert(at, mix),
        modulators: rack_after(l.modulators, RackEdit::EffectInserted { at: at as usize }),
        ..l
    }
}

/// A lane with an effect removed; its modulation targets go with it.
pub open spec fn effect_removed(l: LaneModel, index: usize) -> LaneModel {
    LaneModel {
        effects: l.effects.remove(index as int),
        mix_values: l.mix_values.remove(index as int),
        modulators: rack_after(l.modulators, RackEdit::EffectRemoved { removed: index }),
        ..l
    }
}

/// An effect can move from one place to another.
pub open spec fn can_move(len: nat, from: usize, to: usize) -> bool {
    from < len && to < len && from != to
}

/// A lane with an effect moved; modulation targets follow their plugins.
pub open spec fn effect_moved(l: LaneModel, from: usize, to: usize) -> LaneModel {
    if can_move(l.effects.len(), from, to) {
        LaneModel {
            effects: moved(l.effects, from, to),
            mix_values: moved(l.mix_values, from, to),
            modulators: rack_after(l.modulators, RackEdit::EffectMoved { from, to }),
            ..l
        }
    } else {
        l
    }
}

/// A lane whose targets on one parameter are centred on a new value.
pub open spec fn param_centred(
    l: LaneModel,
    slot: usize,
    param_index: u32,
    value: F32Bits,
) -> LaneModel {
    LaneModel {
        modulators: rack_rebased(
            l.modulators,
            ModTargetKind::PluginParam { slot, param_index },
            value,
        ),
        ..l
    }
}

/// A lane without its instrument, remapper and modulators.
pub open spec fn instrument_cleared(l: LaneModel) -> LaneModel {
    LaneModel {
        instrument: None,
        inst_outputs: 0,
        remapper: None,
        modulators: Seq::empty(),
        ..l
    }
}

/// A lane that has taken over another one's instrument.
pub open spec fn instrument_taken(l: LaneModel, from: LaneModel) -> LaneModel {
    LaneModel {
        instrument: from.instrument,
        inst_outputs: from.inst_outputs,
        remapper: from.remapper,
        ..l
    }
}

/// A group with an effect inserted.
pub open spec fn bus_effect_inserted(
    b: GroupModel,
    index: usize,
    effect: PluginHandle,
    mix: F64Bits,
) -> GroupModel {
    let at = clip(index, b.effects.len());
    GroupModel {
        effects: b.effects.insert(at, effect),
        mix_values: b.mix_values.insert(at, mix),
        ..b
    }
}

/// A group with an effect removed; its modulation targets go with it.
pub open spec fn bus_effect_removed(b: GroupModel, index: usize) -> GroupModel {
    GroupModel {
        effects: b.effects.remove(index as int),
        mix_values: b.mix_values.remove(index as int),
        modulators: rack_after(b.modulators, RackEdit::BusEffectRemoved { removed: index }),
        ..b
    }
}

/// A group with an effect moved; modulation targets follow their plugins.
pub open spec fn bus_effect_moved(b: GroupModel, from: usize, to: usize) -> GroupModel {
    if can_move(b.effects.len(), from, to) {
        GroupModel {
            effects: moved(b.effects, from, to),
            mix_values: moved(b.mix_values, from, to),
            modulators: rack_after(b.modulators, RackEdit::BusEffectMoved { from, to }),
            ..b
        }
    } else {
        b
    }
}

// ---------------------------------------------------------------------------
// Lanes and groups
// ---------------------------------------------------------------------------

/// A lane as it joins a graph at position `at`.
pub open spec fn lane_added(range: Option<(u8, u8)>, at: int, notifies: bool) -> LaneModel {
    let l = fresh_lane();
    LaneModel {
        range,
        pattern: PlayerModel { inst_index: at as usize, notifies, ..l.pattern },
        ..l
    }
}

/// Lanes whose players know their positions.
pub open spec fn lanes_reindexed(lanes: Seq<LaneModel>) -> Seq<LaneModel> {
    Seq::new(
        lanes.len(),
        |i: int|
            LaneModel {
                pattern: PlayerModel { inst_index: i as usize, ..lanes[i].pattern },
                ..lanes[i]
            },
    )
}

/// The graph without lane `inst`. Targets of its group on it go with it.
pub open spec fn instrument_removed(g: GraphModel, inst: usize) -> GraphModel {
    let fixed = with_member_rack(
        g,
        inst,
        |mods: Seq<ModulatorModel>, ordinal: usize|
            rack_after(mods, RackEdit::MemberRemoved { removed: ordinal }),
    );
    GraphModel { lanes: lanes_reindexed(g.lanes.remove(inst as int)), ..fixed }
}

/// A membership once group `removed` is gone.
pub open spec fn group_after_remove(group: Option<usize>, removed: usize) -> Option<usize> {
    match group {
        Some(g) if g == removed => None,
        Some(g) if g > removed => Some((g - 1) as usize),
        _ => group,
    }
}

/// The graph without group `group`; its members become ungrouped.
pub open spec fn group_removed(g: GraphModel, group: usize) -> GraphModel {
    GraphModel {
        groups: g.groups.remove(group as int),
        lanes: Seq::new(
            g.lanes.len(),
            |i: int|
                LaneModel { group: group_after_remove(g.lanes[i].group, group), ..g.lanes[i] },
        ),
        ..g
    }
}

/// The lanes with one membership changed.
pub open spec fn lane_grouped(
    lanes: Seq<LaneModel>,
    inst: usize,
    group: Option<usize>,
) -> Seq<LaneModel> {
    lanes.update(inst as int, LaneModel { group, ..lanes[inst as int] })
}

/// A membership change that takes place.
pub open spec fn can_group(g: GraphModel, inst: usize, group: Option<usize>) -> bool {
    inst < g.lanes.len() && (group is None || group->0 < g.groups.len())
}

/// The graph with one membership changed. Targets of the group that is left
/// lose the member, those of the group that is joined make room for it.
pub open spec fn membership_set(g: GraphModel, inst: usize, group: Option<usize>) -> GraphModel {
    let lanes = lane_grouped(g.lanes, inst, group);
    if g.lanes[inst as int].group == group {
        GraphModel { lanes, ..g }
    } else {
        let left = with_member_rack(
            g,
            inst,
            |mods: Seq<ModulatorModel>, ordinal: usize|
                rack_after(mods, RackEdit::MemberRemoved { removed: ordinal }),
        );
        with_member_rack(
            GraphModel { lanes, ..left },
            inst,
            |mods: Seq<ModulatorModel>, ordinal: usize|
                rack_after(mods, RackEdit::MemberInserted { inserted: ordinal }),
        )
    }
}

/// Plugins handed back, in order.
pub open spec fn all_returned(plugins: Seq<PluginHandle>) -> Seq<EffectModel> {
    Seq::new(plugins.len(), |i: int| EffectModel::Return { plugin: plugins[i] })
}

/// A plugin handed back, if there is one.
pub open spec fn returned(plugin: Option<PluginHandle>) -> Seq<EffectModel> {
    match plugin {
        Some(plugin) => seq![EffectModel::Return { plugin }],
        None => Seq::empty(),
    }
}

// ---------------------------------------------------------------------------
// Modulator commands
// ---------------------------------------------------------------------------

/// What a command on a member lane's rack does to the modulators of the group,
/// where the lane has ordinal `ordinal`.
pub open spec fn member_mirrored(
    mods: Seq<ModulatorModel>,
    ordinal: usize,
    cmd: RackCommand,
) -> Seq<ModulatorModel> {
    match cmd {
        RackCommand::Remove { index } => rack_after(
            mods,
            RackEdit::MemberModulatorRemoved { member: ordinal, removed: index },
        ),
        RackCommand::SetRate { mod_index, rate } => member_field_centred(
            mods,
            ordinal,
            mod_index,
            CrossModField::Rate,
            rate,
        ),
        RackCommand::SetEnvelope { mod_index, attack, decay, sustain, release } => {
            let a = member_field_centred(mods, ordinal, mod_index, CrossModField::Attack, attack);
            let d = member_field_centred(a, ordinal, mod_index, CrossModField::Decay, decay);
            let s = member_field_centred(d, ordinal, mod_index, CrossModField::Sustain, sustain);
            member_field_centred(s, ordinal, mod_index, CrossModField::Release, release)
        },
        RackCommand::SetDepth { mod_index, target_index, depth } => member_field_centred(
            mods,
            ordinal,
            mod_index,
            CrossModField::Depth(target_index),
            depth,
        ),
        _ => mods,
    }
}

/// Group modulators whose targets on one field of a member's modulator are
/// centred on a new value.
pub open spec fn member_field_centred(
    mods: Seq<ModulatorModel>,
    member: usize,
    mod_index: usize,
    field: CrossModField,
    value: F32Bits,
) -> Seq<ModulatorModel> {
    rack_rebased(mods, ModTargetKind::GroupMemberMod { member, mod_index, field }, value)
}

/// The graph after a command on a lane's rack.
pub open spec fn lane_rack_commanded(g: GraphModel, inst: usize, cmd: RackCommand) -> GraphModel {
    with_member_rack(
        with_lane(
            g,
            inst,
            |l: LaneModel|
                LaneModel {
                    modulators: rack_commanded(l.modulators, cmd, lane_sample_rate(l)),
                    ..l
                },
        ),
        inst,
        |mods: Seq<ModulatorModel>, ordinal: usize| member_mirrored(mods, ordinal, cmd),
    )
}

/// The graph after a command on a group's rack.
pub open spec fn group_rack_commanded(
    g: GraphModel,
    group: usize,
    cmd: RackCommand,
) -> GraphModel {
    let rate = graph_rate(g);
    with_group(
        g,
        group,
        |b: GroupModel|
            GroupModel { modulators: rack_commanded(b.modulators, cmd, rate), ..b },
    )
}

// ---------------------------------------------------------------------------
// What a command does
// ---------------------------------------------------------------------------

/// The graph after a command.
pub open spec fn graph_after(g: GraphModel, cmd: GraphCommand, timing: PatternTiming) -> GraphModel {
    match cmd {
        GraphCommand::SwapInstrument { inst, instrument, inst_outputs, remapper } => with_lane(
            g,
            inst,
            |l: LaneModel|
                LaneModel {
                    instrument: Some(instrument),
                    inst_outputs,
                    remapper: remapper_view(remapper),
                    ..l
                },
        ),
        GraphCommand::InsertEffect { inst, index, effect, mix } => if effect.outputs
            == g.num_channels {
            with_lane(g, inst, |l: LaneModel| effect_inserted(l, index, effect, mix))
        } else {
            g
        },
        GraphCommand::RemoveEffect { inst, index } => with_lane(
            g,
            inst,
            |l: LaneModel|
                if index < l.effects.len() {
                    effect_removed(l, index)
                } else {
                    l
                },
        ),
        GraphCommand::ReorderEffect { inst, from, to } => with_lane(
            g,
            inst,
            |l: LaneModel| effect_moved(l, from, to),
        ),
        GraphCommand::SetParameter { inst, slot, param_index, value } => with_member_rack(
            with_lane(g, inst, |l: LaneModel| param_centred(l, slot, param_index, value)),
            inst,
            |mods: Seq<ModulatorModel>, member: usize|
                rack_rebased(mods, ModTargetKind::GroupMember { member, slot, param_index }, value),
        ),
        GraphCommand::LoadPreset { .. } => g,
        GraphCommand::ClearInstrument { inst } => with_lane(
            g,
            inst,
            |l: LaneModel| instrument_cleared(l),
        ),
        GraphCommand::SwapInstruments { inst_a, inst_b } => if inst_a < g.lanes.len() && inst_b
            < g.lanes.len() {
            let a = g.lanes[inst_a as int];
            let b = g.lanes[inst_b as int];
            GraphModel {
                lanes: g.lanes.update(inst_a as int, instrument_taken(a, b)).update(
                    inst_b as int,
                    instrument_taken(b, a),
                ),
                ..g
            }
        } else {
            g
        },
        GraphCommand::AddInstrument { range } => GraphModel {
            lanes: g.lanes.push(lane_added(range, g.lanes.len() as int, g.notifies)),
            ..g
        },
        GraphCommand::RemoveInstrument { inst } => if inst < g.lanes.len() {
            instrument_removed(g, inst)
        } else {
            g
        },
        GraphCommand::AddGroup => GraphModel { groups: g.groups.push(fresh_group()), ..g },
        GraphCommand::RemoveGroup { group } => if group < g.groups.len() {
            group_removed(g, group)
        } else {
            g
        },
        GraphCommand::SetLaneGroup { inst, group } => if can_group(g, inst, group) {
            membership_set(g, inst, group)
        } else {
            g
        },
        GraphCommand::InsertGroupEffect { group, index, effect, mix } => if effect.outputs
            == g.num_channels {
            with_group(g, group, |b: GroupModel| bus_effect_inserted(b, index, effect, mix))
        } else {
            g
        },
        GraphCommand::RemoveGroupEffect { group, index } => with_group(
            g,
            group,
            |b: GroupModel|
                if index < b.effects.len() {
                    bus_effect_removed(b, index)
                } else {
                    b
                },
        ),
        GraphCommand::ReorderGroupEffect { group, from, to } => with_group(
            g,
            group,
            |b: GroupModel| bus_effect_moved(b, from, to),
        ),
        GraphCommand::SetGroupParameter { group, index, param_index, value } => with_group(
            g,
            group,
            |b: GroupModel|
                GroupModel {
                    modulators: rack_rebased(
                        b.modulators,
                        ModTargetKind::GroupBus { effect_index: index, param_index },
                        value,
                    ),
                    ..b
                },
        ),
        GraphCommand::SetPatternRecording { inst, recording } => with_lane(
            g,
            inst,
            |l: LaneModel|
                LaneModel {
                    pattern: if recording {
                        recording_started(l.pattern, inst, timing.beat_length)
                    } else {
                        recording_stopped(l.pattern, timing.pattern_length)
                    },
                    ..l
                },
        ),
        GraphCommand::SetPattern { inst, pattern, base_note, in_key } => with_lane(
            g,
            inst,
            |l: LaneModel|
                LaneModel {
                    pattern: pattern_set(
                        l.pattern,
                        pattern.events@,
                        pattern.length_samples,
                        base_note,
                        in_key,
                    ),
                    ..l
                },
        ),
        GraphCommand::ClearPattern { inst } => with_lane(
            g,
            inst,
            |l: LaneModel| LaneModel { pattern: pattern_cleared(l.pattern), ..l },
        ),
        GraphCommand::SwapPatterns { inst_a, inst_b } => if inst_a < g.lanes.len() && inst_b
            < g.lanes.len() {
            let a = g.lanes[inst_a as int];
            let b = g.lanes[inst_b as int];
            GraphModel {
                lanes: g.lanes.update(
                    inst_a as int,
                    LaneModel { pattern: pattern_taken(a.pattern, b.pattern), ..a },
                ).update(
                    inst_b as int,
                    LaneModel { pattern: pattern_taken(b.pattern, a.pattern), ..b },
                ),
                ..g
            }
        } else {
            g
        },
        GraphCommand::SetGlobalBpm { bpm } => GraphModel {
            lanes: Seq::new(
                g.lanes.len(),
                |i: int|
                    LaneModel { pattern: PlayerModel { bpm, ..g.lanes[i].pattern }, ..g.lanes[i] },
            ),
            ..g
        },
        GraphCommand::SetMix { inst, slot, value } => with_lane(
            g,
            inst,
            |l: LaneModel| lane_set(l, LaneSetting::Mix { slot, mix: value }),
        ),
        GraphCommand::SetVolume { inst, value } => with_lane(
            g,
            inst,
            |l: LaneModel| lane_set(l, LaneSetting::Volume { value }),
        ),
        GraphCommand::SetInstrumentRange { inst, range } => with_lane(
            g,
            inst,
            |l: LaneModel| lane_set(l, LaneSetting::Range { range }),
        ),
        GraphCommand::SetTranspose { inst, semitones } => with_lane(
            g,
            inst,
            |l: LaneModel| lane_set(l, LaneSetting::Transpose { semitones }),
        ),
        GraphCommand::SetPatternEnabled { inst, enabled } => with_lane(
            g,
            inst,
            |l: LaneModel| lane_set(l, LaneSetting::PatternEnabled { enabled }),
        ),
        GraphCommand::SetPatternLength { inst, beats } => with_lane(
            g,
            inst,
            |l: LaneModel| lane_set(l, LaneSetting::PatternLength { beats }),
        ),
        GraphCommand::SetPatternLooping { inst, looping } => with_lane(
            g,
            inst,
            |l: LaneModel| lane_set(l, LaneSetting::PatternLooping { looping }),
        ),
        GraphCommand::SetPatternInKey { inst, in_key } => with_lane(
            g,
            inst,
            |l: LaneModel| lane_set(l, LaneSetting::PatternInKey { in_key }),
        ),
        GraphCommand::SetGroupVolume { group, value } => with_group(
            g,
            group,
            |b: GroupModel| group_set(b, GroupSetting::Volume { value }),
        ),
        GraphCommand::SetGroupPan { group, value } => with_group(
            g,
            group,
            |b: GroupModel| group_set(b, GroupSetting::Pan { value }),
        ),
        GraphCommand::SetGroupMix { group, index, value } => with_group(
            g,
            group,
            |b: GroupModel| group_set(b, GroupSetting::Mix { index, mix: value }),
        ),
        GraphCommand::InsertModulator { inst, index, source } => lane_rack_commanded(
            g,
            inst,
            RackCommand::Insert { index, source },
        ),
        GraphCommand::RemoveModulator { inst, index } => lane_rack_commanded(
            g,
            inst,
            RackCommand::Remove { index },
        ),
        GraphCommand::SetModulatorRate { inst, mod_index, rate } => lane_rack_commanded(
            g,
            inst,
            RackCommand::SetRate { mod_index, rate },
        ),
        GraphCommand::SetModulatorWaveform { inst, mod_index, waveform } => lane_rack_commanded(
            g,
            inst,
            RackCommand::SetWaveform { mod_index, waveform },
        ),
        GraphCommand::SetModulatorSource { inst, mod_index, source } => lane_rack_commanded(
            g,
            inst,
            RackCommand::SetSource { mod_index, source },
        ),
        GraphCommand::SetModulatorEnvelopeParam { inst, mod_index, attack, decay, sustain, release } => lane_rack_commanded(
            g,
            inst,
            RackCommand::SetEnvelope { mod_index, attack, decay, sustain, release },
        ),
        GraphCommand::AddModTarget { inst, mod_index, target } => lane_rack_commanded(
            g,
            inst,
            RackCommand::AddTarget { mod_index, target },
        ),
        GraphCommand::RemoveModTarget { inst, mod_index, target_index } => lane_rack_commanded(
            g,
            inst,
            RackCommand::RemoveTarget { mod_index, target_index },
        ),
        GraphCommand::SetModTargetDepth { inst, mod_index, target_index, depth } => lane_rack_commanded(
            g,
            inst,
            RackCommand::SetDepth { mod_index, target_index, depth },
        ),
        GraphCommand::InsertGroupModulator { group, index, source } => group_rack_commanded(
            g,
            group,
            RackCommand::Insert { index, source },
        ),
        GraphCommand::RemoveGroupModulator { group, index } => group_rack_commanded(
            g,
            group,
            RackCommand::Remove { index },
        ),
        GraphCommand::SetGroupModulatorRate { group, mod_index, rate } => group_rack_commanded(
            g,
            group,
            RackCommand::SetRate { mod_index, rate },
        ),
        GraphCommand::SetGroupModulatorWaveform { group, mod_index, waveform } => group_rack_commanded(
            g,
            group,
            RackCommand::SetWaveform { mod_index, waveform },
        ),
        GraphCommand::SetGroupModulatorSource { group, mod_index, source } => group_rack_commanded(
            g,
            group,
            RackCommand::SetSource { mod_index, source },
        ),
        GraphCommand::SetGroupModulatorEnvelopeParam { group, mod_index, attack, decay, sustain, release } => group_rack_commanded(
            g,
            group,
            RackCommand::SetEnvelope { mod_index, attack, decay, sustain, release },
        ),
        GraphCommand::AddGroupModTarget { group, mod_index, target } => group_rack_commanded(
            g,
            group,
            RackCommand::AddTarget { mod_index, target },
        ),
        GraphCommand::RemoveGroupModTarget { group, mod_index, target_index } => group_rack_commanded(
            g,
            group,
            RackCommand::RemoveTarget { mod_index, target_index },
        ),
        GraphCommand::SetGroupModTargetDepth { group, mod_index, target_index, depth } => group_rack_commanded(
            g,
            group,
            RackCommand::SetDepth { mod_index, target_index, depth },
        ),
    }
}

/// What has to be done outside the graph after a command, in order.
pub open spec fn effects_after(
    g: GraphModel,
    cmd: GraphCommand,
    timing: PatternTiming,
) -> Seq<EffectModel> {
    match cmd {
        GraphCommand::SwapInstrument { inst, instrument, .. } => if inst < g.lanes.len() {
            returned(g.lanes[inst as int].instrument)
        } else {
            seq![EffectModel::Discard { plugin: instrument }]
        },
        GraphCommand::InsertEffect { inst, effect, .. } => if inst >= g.lanes.len() {
            seq![EffectModel::Discard { plugin: effect }]
        } else if effect.outputs != g.num_channels {
            seq![EffectModel::Return { plugin: effect }]
        } else {
            Seq::empty()
        },
        GraphCommand::RemoveEffect { inst, index } => if inst < g.lanes.len() && index
            < g.lanes[inst as int].effects.len() {
            seq![EffectModel::Return { plugin: g.lanes[inst as int].effects[index as int] }]
        } else {
            Seq::empty()
        },
        GraphCommand::SetParameter { inst, slot, param_index, value } => if inst < g.lanes.len() {
            match slot_plugin(g.lanes[inst as int], slot) {
                Some(plugin) => seq![EffectModel::SetParameter { plugin, param_index, value }],
                None => Seq::empty(),
            }
        } else {
            Seq::empty()
        },
        GraphCommand::LoadPreset { inst, slot, preset_id } => if inst < g.lanes.len() {
            match slot_plugin(g.lanes[inst as int], slot) {
                Some(plugin) => seq![EffectModel::LoadPreset { plugin, preset_id: preset_id@ }],
                None => Seq::empty(),
            }
        } else {
            Seq::empty()
        },
        GraphCommand::ClearInstrument { inst } => if inst < g.lanes.len() {
            returned(g.lanes[inst as int].instrument)
        } else {
            Seq::empty()
        },
        GraphCommand::RemoveInstrument { inst } => if inst < g.lanes.len() {
            returned(g.lanes[inst as int].instrument) + all_returned(
                g.lanes[inst as int].effects,
            )
        } else {
            Seq::empty()
        },
        GraphCommand::RemoveGroup { group } => if group < g.groups.len() {
            all_returned(g.groups[group as int].effects)
        } else {
            Seq::empty()
        },
        GraphCommand::InsertGroupEffect { group, effect, .. } => if group >= g.groups.len() {
            seq![EffectModel::Discard { plugin: effect }]
        } else if effect.outputs != g.num_channels {
            seq![EffectModel::Return { plugin: effect }]
        } else {
            Seq::empty()
        },
        GraphCommand::RemoveGroupEffect { group, index } => if group < g.groups.len() && index
            < g.groups[group as int].effects.len() {
            seq![EffectModel::Return { plugin: g.groups[group as int].effects[index as int] }]
        } else {
            Seq::empty()
        },
        GraphCommand::SetGroupParameter { group, index, param_index, value } => if group
            < g.groups.len() && index < g.groups[group as int].effects.len() {
            let plugin = g.groups[group as int].effects[index as int];
            seq![EffectModel::SetParameter { plugin, param_index, value }]
        } else {
            Seq::empty()
        },
        GraphCommand::SetPatternRecording { inst, recording } => if inst < g.lanes.len()
            && !recording && g.lanes[inst as int].pattern.recording {
            match recording_report(g.lanes[inst as int].pattern, timing.pattern_length) {
                Some(notification) => seq![EffectModel::Notify { notification }],
                None => Seq::empty(),
            }
        } else {
            Seq::empty()
        },
        _ => Seq::empty(),
    }
}

/// Indices that a command shifts stay in `usize` range.
pub open spec fn command_fits(g: GraphModel, cmd: GraphCommand) -> bool {
    match cmd {
        GraphCommand::InsertEffect { inst, index, effect, .. } => inst < g.lanes.len()
            && effect.outputs == g.num_channels ==> rack_edit_fits(
            g.lanes[inst as int].modulators,
            RackEdit::EffectInserted {
                at: clip(index, g.lanes[inst as int].effects.len()) as usize,
            },
        ),
        GraphCommand::SetLaneGroup { inst, group } => can_group(g, inst, group) && group is Some
            && g.lanes[inst as int].group != group ==> rack_edit_fits(
            g.groups[group->0 as int].modulators,
            RackEdit::MemberInserted {
                inserted: (membership(lane_grouped(g.lanes, inst, group), inst)->0).1,
            },
        ),
        _ => true,
    }
}

} // verus!
