//! What holds of the graph through every command.

use vstd::prelude::*;

use crate::bus::GroupModel;
use crate::command::{
    bus_effect_moved, bus_effect_removed, can_group, effect_inserted, effect_moved,
    effect_removed, graph_after, group_removed, instrument_removed, instrument_taken,
    lane_grouped, lane_rack_commanded, member_mirrored, membership_set, moved, param_centred,
    with_lane, with_member_rack, GraphCommand, PatternTiming,
};
use crate::graph::{graph_valid, membership, GraphModel};
use crate::lane::{lane_sample_rate, slot_plugin, LaneModel, PluginHandle};
use crate::modulation::{
    index_after_move, kind_after, rack_after, rack_rebased, ModTargetKind, ModulatorModel,
    RackEdit,
};
use crate::pattern::pattern_taken;
use crate::rack::{clip, rack_commanded, RackCommand};
use crate::scalar::{F32Bits, F64Bits};

verus! {

proof fn lane_change_keeps_valid(g: GraphModel, h: GraphModel, inst: usize)
    requires
        graph_valid(g),
        h.groups == g.groups,
        h.lanes.len() == g.lanes.len(),
        forall|i: int| 0 <= i < g.lanes.len() && i != inst ==> h.lanes[i] == g.lanes[i],
        inst < g.lanes.len() ==> {
            let l = h.lanes[inst as int];
            &&& l.effects.len() == l.mix_values.len()
            &&& l.group == g.lanes[inst as int].group
            &&& l.pattern.inst_index == inst
        },
    ensures
        graph_valid(h),
{
}

proof fn group_change_keeps_valid(g: GraphModel, h: GraphModel, group: usize)
    requires
        graph_valid(g),
        h.lanes == g.lanes,
        h.groups.len() == g.groups.len(),
        forall|i: int| 0 <= i < g.groups.len() && i != group ==> h.groups[i] == g.groups[i],
        group < g.groups.len() ==> h.groups[group as int].effects.len()
            == h.groups[group as int].mix_values.len(),
    ensures
        graph_valid(h),
{
}

proof fn member_rack_keeps_valid(
    g: GraphModel,
    inst: usize,
    f: spec_fn(Seq<ModulatorModel>, usize) -> Seq<ModulatorModel>,
)
    requires
        graph_valid(g),
    ensures
        graph_valid(with_member_rack(g, inst, f)),
        with_member_rack(g, inst, f).lanes == g.lanes,
        with_member_rack(g, inst, f).groups.len() == g.groups.len(),
        with_member_rack(g, inst, f).num_channels == g.num_channels,
{
    if let Some((group, ordinal)) = membership(g.lanes, inst) {
        group_change_keeps_valid(g, with_member_rack(g, inst, f), group);
    }
}

proof fn lane_rack_keeps_valid(g: GraphModel, inst: usize, cmd: RackCommand)
    requires
        graph_valid(g),
    ensures
        graph_valid(lane_rack_commanded(g, inst, cmd)),
{
    let f = |l: LaneModel|
        LaneModel { modulators: rack_commanded(l.modulators, cmd, lane_sample_rate(l)), ..l };
    let mid = with_lane(g, inst, f);
    lane_change_keeps_valid(g, mid, inst);
    member_rack_keeps_valid(
        mid,
        inst,
        |mods: Seq<ModulatorModel>, ordinal: usize| member_mirrored(mods, ordinal, cmd),
    );
}

proof fn parameter_keeps_valid(
    g: GraphModel,
    inst: usize,
    slot: usize,
    param_index: u32,
    value: F32Bits,
    timing: PatternTiming,
)
    requires
        graph_valid(g),
    ensures
        graph_valid(
            graph_after(
                g,
                GraphCommand::SetParameter { inst, slot, param_index, value },
                timing,
            ),
        ),
{
    let mid = with_lane(g, inst, |l: LaneModel| param_centred(l, slot, param_index, value));
    lane_change_keeps_valid(g, mid, inst);
    member_rack_keeps_valid(
        mid,
        inst,
        |mods: Seq<ModulatorModel>, member: usize|
            rack_rebased(mods, ModTargetKind::GroupMember { member, slot, param_index }, value),
    );
}

proof fn removal_keeps_valid(g: GraphModel, inst: usize)
    requires
        graph_valid(g),
        g.lanes.len() <= usize::MAX,
        inst < g.lanes.len(),
    ensures
        graph_valid(instrument_removed(g, inst)),
{
    member_rack_keeps_valid(
        g,
        inst,
        |mods: Seq<ModulatorModel>, ordinal: usize|
            rack_after(mods, RackEdit::MemberRemoved { removed: ordinal }),
    );
    let h = instrument_removed(g, inst);
    assert forall|i: int| 0 <= i < h.lanes.len() implies (#[trigger] h.lanes[i]).effects.len()
        == h.lanes[i].mix_values.len() && h.lanes[i].pattern.inst_index == i && (
    h.lanes[i].group is Some ==> h.lanes[i].group->0 < h.groups.len()) by {
        let k = if i < inst {
            i
        } else {
            i + 1
        };
        assert(g.lanes.remove(inst as int)[i] == g.lanes[k]);
    }
}

proof fn group_removal_keeps_valid(g: GraphModel, group: usize)
    requires
        graph_valid(g),
        group < g.groups.len(),
    ensures
        graph_valid(group_removed(g, group)),
{
    let h = group_removed(g, group);
    assert forall|i: int| 0 <= i < h.groups.len() implies (#[trigger] h.groups[i]).effects.len()
        == h.groups[i].mix_values.len() by {
        let k = if i < group {
            i
        } else {
            i + 1
        };
        assert(h.groups[i] == g.groups[k]);
    }
    assert forall|i: int| 0 <= i < h.lanes.len() implies (#[trigger] h.lanes[i]).effects.len()
        == h.lanes[i].mix_values.len() && h.lanes[i].pattern.inst_index == i && (
    h.lanes[i].group is Some ==> h.lanes[i].group->0 < h.groups.len()) by {
        assert(g.lanes[i].effects.len() == g.lanes[i].mix_values.len());
    }
}

proof fn grouping_keeps_valid(g: GraphModel, inst: usize, group: Option<usize>)
    requires
        graph_valid(g),
        can_group(g, inst, group),
    ensures
        graph_valid(membership_set(g, inst, group)),
{
    let lanes = lane_grouped(g.lanes, inst, group);
    let leave = |mods: Seq<ModulatorModel>, ordinal: usize|
        rack_after(mods, RackEdit::MemberRemoved { removed: ordinal });
    let join = |mods: Seq<ModulatorModel>, ordinal: usize|
        rack_after(mods, RackEdit::MemberInserted { inserted: ordinal });
    member_rack_keeps_valid(g, inst, leave);
    let left = with_member_rack(g, inst, leave);
    let mid = GraphModel { lanes, ..left };
    assert(graph_valid(mid)) by {
        assert forall|i: int| 0 <= i < lanes.len() implies (#[trigger] mid.lanes[i]).effects.len()
            == mid.lanes[i].mix_values.len() && mid.lanes[i].pattern.inst_index == i && (
        mid.lanes[i].group is Some ==> mid.lanes[i].group->0 < mid.groups.len()) by {
            assert(g.lanes[i].effects.len() == g.lanes[i].mix_values.len());
        }
    }
    member_rack_keeps_valid(mid, inst, join);
}

/// Every command keeps the graph valid: each effect keeps its mix value, every
/// membership names a group, and every player knows its lane.
#[verifier::spinoff_prover]
#[verifier::rlimit(40)]
pub proof fn commands_keep_graph_valid(g: GraphModel, cmd: GraphCommand, timing: PatternTiming)
    requires
        graph_valid(g),
        g.lanes.len() <= usize::MAX,
        cmd is AddInstrument ==> g.lanes.len() < usize::MAX,
    ensures
        graph_valid(graph_after(g, cmd, timing)),
{
    let h = graph_after(g, cmd, timing);
    match cmd {
        GraphCommand::SwapInstrument { inst, .. } => {
            lane_change_keeps_valid(g, h, inst);
        },
        GraphCommand::InsertEffect { inst, .. } => {
            lane_change_keeps_valid(g, h, inst);
        },
        GraphCommand::RemoveEffect { inst, .. } => {
            lane_change_keeps_valid(g, h, inst);
        },
        GraphCommand::ReorderEffect { inst, .. } => {
            lane_change_keeps_valid(g, h, inst);
        },
        GraphCommand::ClearInstrument { inst, .. } => {
            lane_change_keeps_valid(g, h, inst);
        },
        GraphCommand::SetPatternRecording { inst, .. } => {
            lane_change_keeps_valid(g, h, inst);
        },
        GraphCommand::SetPattern { inst, .. } => {
            lane_change_keeps_valid(g, h, inst);
        },
        GraphCommand::ClearPattern { inst, .. } => {
            lane_change_keeps_valid(g, h, inst);
        },
        GraphCommand::SetMix { inst, .. } => {
            lane_change_keeps_valid(g, h, inst);
        },
        GraphCommand::SetVolume { inst, .. } => {
            lane_change_keeps_valid(g, h, inst);
        },
        GraphCommand::SetInstrumentRange { inst, .. } => {
            lane_change_keeps_valid(g, h, inst);
        },
        GraphCommand::SetTranspose { inst, .. } => {
            lane_change_keeps_valid(g, h, inst);
        },
        GraphCommand::SetPatternEnabled { inst, .. } => {
            lane_change_keeps_valid(g, h, inst);
        },
        GraphCommand::SetPatternLength { inst, .. } => {
            lane_change_keeps_valid(g, h, inst);
        },
        GraphCommand::SetPatternLooping { inst, .. } => {
            lane_change_keeps_valid(g, h, inst);
        },
        GraphCommand::SetPatternInKey { inst, .. } => {
            lane_change_keeps_valid(g, h, inst);
        },
        GraphCommand::InsertGroupEffect { group, .. } => {
            group_change_keeps_valid(g, h, group);
        },
        GraphCommand::RemoveGroupEffect { group, .. } => {
            group_change_keeps_valid(g, h, group);
        },
        GraphCommand::ReorderGroupEffect { group, .. } => {
            group_change_keeps_valid(g, h, group);
        },
        GraphCommand::SetGroupParameter { group, .. } => {
            group_change_keeps_valid(g, h, group);
        },
        GraphCommand::SetGroupVolume { group, .. } => {
            group_change_keeps_valid(g, h, group);
        },
        GraphCommand::SetGroupPan { group, .. } => {
            group_change_keeps_valid(g, h, group);
        },
        GraphCommand::SetGroupMix { group, .. } => {
            group_change_keeps_valid(g, h, group);
        },
        GraphCommand::InsertGroupModulator { group, .. } => {
            group_change_keeps_valid(g, h, group);
        },
        GraphCommand::RemoveGroupModulator { group, .. } => {
            group_change_keeps_valid(g, h, group);
        },
        GraphCommand::SetGroupModulatorRate { group, .. } => {
            group_change_keeps_valid(g, h, group);
        },
        GraphCommand::SetGroupModulatorWaveform { group, .. } => {
            group_change_keeps_valid(g, h, group);
        },
        GraphCommand::SetGroupModulatorSource { group, .. } => {
            group_change_keeps_valid(g, h, group);
        },
        GraphCommand::SetGroupModulatorEnvelopeParam { group, .. } => {
            group_change_keeps_valid(g, h, group);
        },
        GraphCommand::AddGroupModTarget { group, .. } => {
            group_change_keeps_valid(g, h, group);
        },
        GraphCommand::RemoveGroupModTarget { group, .. } => {
            group_change_keeps_valid(g, h, group);
        },
        GraphCommand::SetGroupModTargetDepth { group, .. } => {
            group_change_keeps_valid(g, h, group);
        },
        GraphCommand::InsertModulator { inst, index, source } => {
            lane_rack_keeps_valid(g, inst, RackCommand::Insert { index, source });
        },
        GraphCommand::RemoveModulator { inst, index } => {
            lane_rack_keeps_valid(g, inst, RackCommand::Remove { index });
        },
        GraphCommand::SetModulatorRate { inst, mod_index, rate } => {
            lane_rack_keeps_valid(g, inst, RackCommand::SetRate { mod_index, rate });
        },
        GraphCommand::SetModulatorWaveform { inst, mod_index, waveform } => {
            lane_rack_keeps_valid(g, inst, RackCommand::SetWaveform { mod_index, waveform });
        },
        GraphCommand::SetModulatorSource { inst, mod_index, source } => {
            lane_rack_keeps_valid(g, inst, RackCommand::SetSource { mod_index, source });
        },
        GraphCommand::SetModulatorEnvelopeParam { inst, mod_index, attack, decay, sustain, release } => {
            lane_rack_keeps_valid(g, inst, RackCommand::SetEnvelope { mod_index, attack, decay, sustain, release });
        },
        GraphCommand::AddModTarget { inst, mod_index, target } => {
            lane_rack_keeps_valid(g, inst, RackCommand::AddTarget { mod_index, target });
        },
        GraphCommand::RemoveModTarget { inst, mod_index, target_index } => {
            lane_rack_keeps_valid(g, inst, RackCommand::RemoveTarget { mod_index, target_index });
        },
        GraphCommand::SetModTargetDepth { inst, mod_index, target_index, depth } => {
            lane_rack_keeps_valid(g, inst, RackCommand::SetDepth { mod_index, target_index, depth });
        },
        GraphCommand::SetParameter { inst, slot, param_index, value } => {
            parameter_keeps_valid(g, inst, slot, param_index, value, timing);
        },
        GraphCommand::SwapInstruments { inst_a, inst_b } => {
            if inst_a < g.lanes.len() && inst_b < g.lanes.len() {
                let a = g.lanes[inst_a as int];
                let b = g.lanes[inst_b as int];
                let mid = GraphModel {
                    lanes: g.lanes.update(inst_a as int, instrument_taken(a, b)),
                    ..g
                };
                lane_change_keeps_valid(g, mid, inst_a);
                lane_change_keeps_valid(mid, h, inst_b);
            }
        },
        GraphCommand::SwapPatterns { inst_a, inst_b } => {
            if inst_a < g.lanes.len() && inst_b < g.lanes.len() {
                let a = g.lanes[inst_a as int];
                let b = g.lanes[inst_b as int];
                let mid = GraphModel {
                    lanes: g.lanes.update(
                        inst_a as int,
                        LaneModel { pattern: pattern_taken(a.pattern, b.pattern), ..a },
                    ),
                    ..g
                };
                lane_change_keeps_valid(g, mid, inst_a);
                lane_change_keeps_valid(mid, h, inst_b);
            }
        },
        GraphCommand::SetGlobalBpm { bpm } => {
            assert forall|i: int| 0 <= i < h.lanes.len() implies (
            #[trigger] h.lanes[i]).effects.len() == h.lanes[i].mix_values.len()
                && h.lanes[i].pattern.inst_index == i && (h.lanes[i].group is Some
                ==> h.lanes[i].group->0 < h.groups.len()) by {
                assert(g.lanes[i].effects.len() == g.lanes[i].mix_values.len());
            }
        },
        GraphCommand::RemoveInstrument { inst } => {
            if inst < g.lanes.len() {
                removal_keeps_valid(g, inst);
            }
        },
        GraphCommand::RemoveGroup { group } => {
            if group < g.groups.len() {
                group_removal_keeps_valid(g, group);
            }
        },
        GraphCommand::SetLaneGroup { inst, group } => {
            if can_group(g, inst, group) {
                grouping_keeps_valid(g, inst, group);
            }
        },
        GraphCommand::LoadPreset { .. } => {},
        GraphCommand::AddInstrument { .. } => {},
        GraphCommand::AddGroup => {},
    }
}

// ---------------------------------------------------------------------------
// Modulation targets stay on their plugins
// ---------------------------------------------------------------------------

/// The plugin and parameter that a lane's own target drives.
pub open spec fn driven(l: LaneModel, kind: ModTargetKind) -> Option<(PluginHandle, u32)> {
    match kind {
        ModTargetKind::PluginParam { slot, param_index } => match slot_plugin(l, slot) {
            Some(plugin) => Some((plugin, param_index)),
            None => None,
        },
        _ => None,
    }
}

/// After an effect is inserted, every target of the lane drives what it drove
/// before.
pub proof fn insertion_keeps_targets(
    l: LaneModel,
    index: usize,
    effect: PluginHandle,
    mix: F64Bits,
    kind: ModTargetKind,
)
    requires
        l.effects.len() < usize::MAX,
        driven(l, kind) is Some,
    ensures
        ({
            let at = clip(index, l.effects.len()) as usize;
            match kind_after(kind, RackEdit::EffectInserted { at }) {
                Some(k) => driven(effect_inserted(l, index, effect, mix), k) == driven(l, kind),
                None => false,
            }
        }),
{
}

/// After an effect is removed its targets are gone, and every other target of
/// the lane drives what it drove before.
pub proof fn removal_keeps_targets(l: LaneModel, index: usize, kind: ModTargetKind)
    requires
        index < l.effects.len() < usize::MAX,
        driven(l, kind) is Some,
    ensures
        match kind_after(kind, RackEdit::EffectRemoved { removed: index }) {
            Some(k) => driven(effect_removed(l, index), k) == driven(l, kind),
            None => kind matches ModTargetKind::PluginParam { slot, .. } && slot == index + 1,
        },
{
}

/// Where the elements of a list are after one of them has moved.
proof fn moved_elements<A>(s: Seq<A>, from: usize, to: usize, i: usize)
    requires
        from < s.len(),
        to < s.len(),
        i < s.len(),
        s.len() < usize::MAX,
    ensures
        moved(s, from, to).len() == s.len(),
        index_after_move(i, from, to) < s.len(),
        moved(s, from, to)[index_after_move(i, from, to) as int] == s[i as int],
{
}

/// After an effect is moved, every target of the lane drives what it drove
/// before.
pub proof fn reordering_keeps_targets(l: LaneModel, from: usize, to: usize, kind: ModTargetKind)
    requires
        from < l.effects.len() < usize::MAX,
        to < l.effects.len(),
        from != to,
        driven(l, kind) is Some,
    ensures
        match kind_after(kind, RackEdit::EffectMoved { from, to }) {
            Some(k) => driven(effect_moved(l, from, to), k) == driven(l, kind),
            None => false,
        },
{
    if let ModTargetKind::PluginParam { slot, .. } = kind {
        if slot > 0 {
            moved_elements(l.effects, from, to, (slot - 1) as usize);
        }
    }
}

/// The bus effect and parameter that a group's own target drives.
pub open spec fn bus_driven(b: GroupModel, kind: ModTargetKind) -> Option<(PluginHandle, u32)> {
    match kind {
        ModTargetKind::GroupBus { effect_index, param_index } => if effect_index
            < b.effects.len() {
            Some((b.effects[effect_index as int], param_index))
        } else {
            None
        },
        _ => None,
    }
}

/// After a bus effect is removed its targets are gone, and every other bus
/// target drives what it drove before.
pub proof fn bus_removal_keeps_targets(b: GroupModel, index: usize, kind: ModTargetKind)
    requires
        index < b.effects.len() < usize::MAX,
        bus_driven(b, kind) is Some,
    ensures
        match kind_after(kind, RackEdit::BusEffectRemoved { removed: index }) {
            Some(k) => bus_driven(bus_effect_removed(b, index), k) == bus_driven(b, kind),
            None => kind->effect_index == index,
        },
{
}

/// After a bus effect is moved, every bus target drives what it drove before.
pub proof fn bus_reordering_keeps_targets(
    b: GroupModel,
    from: usize,
    to: usize,
    kind: ModTargetKind,
)
    requires
        from < b.effects.len() < usize::MAX,
        to < b.effects.len(),
        from != to,
        bus_driven(b, kind) is Some,
    ensures
        match kind_after(kind, RackEdit::BusEffectMoved { from, to }) {
            Some(k) => bus_driven(bus_effect_moved(b, from, to), k) == bus_driven(b, kind),
            None => false,
        },
{
    if let ModTargetKind::GroupBus { effect_index, .. } = kind {
        moved_elements(b.effects, from, to, effect_index);
    }
}

} // verus!
