//! No plugin gets lost: whatever a command takes out of the graph is handed
//! back or discarded.

use vstd::prelude::*;

use crate::bus::{fresh_group, GroupModel};
use crate::command::{
    all_returned, can_group, can_move, effects_after, graph_after, group_removed,
    instrument_removed, instrument_taken, lane_grouped, lane_rack_commanded, member_mirrored,
    membership_set, moved, param_centred, returned, with_lane, with_member_rack, EffectModel,
    GraphCommand, PatternTiming,
};
use crate::graph::{membership, GraphModel};
use crate::lane::{lane_sample_rate, LaneModel, PluginHandle};
use crate::modulation::{rack_after, rack_rebased, ModTargetKind, ModulatorModel, RackEdit};
use crate::rack::{clip, rack_commanded, RackCommand};
use crate::scalar::F32Bits;

verus! {

/// How often a plugin occurs in a list.
pub open spec fn occurrences(s: Seq<PluginHandle>, p: PluginHandle) -> int
    decreases s.len(),
{
    if s.len() == 0 {
        0
    } else {
        occurrences(s.drop_last(), p) + same(s.last(), p)
    }
}

/// One if two plugins are the same, else zero.
pub open spec fn same(a: PluginHandle, p: PluginHandle) -> int {
    if a == p {
        1
    } else {
        0
    }
}

/// One if there is a plugin and it is `p`, else zero.
pub open spec fn same_if_any(a: Option<PluginHandle>, p: PluginHandle) -> int {
    match a {
        Some(q) => same(q, p),
        None => 0,
    }
}

/// How often a lane holds a plugin.
pub open spec fn lane_holds(l: LaneModel, p: PluginHandle) -> int {
    same_if_any(l.instrument, p) + occurrences(l.effects, p)
}

/// How often the first `n` lanes hold a plugin.
pub open spec fn lanes_hold(lanes: Seq<LaneModel>, p: PluginHandle, n: int) -> int
    decreases n,
{
    if n <= 0 {
        0
    } else {
        lanes_hold(lanes, p, n - 1) + lane_holds(lanes[n - 1], p)
    }
}

/// How often the first `n` groups hold a plugin.
pub open spec fn groups_hold(groups: Seq<GroupModel>, p: PluginHandle, n: int) -> int
    decreases n,
{
    if n <= 0 {
        0
    } else {
        groups_hold(groups, p, n - 1) + occurrences(groups[n - 1].effects, p)
    }
}

/// How often a graph holds a plugin.
pub open spec fn held(g: GraphModel, p: PluginHandle) -> int {
    lanes_hold(g.lanes, p, g.lanes.len() as int) + groups_hold(g.groups, p, g.groups.len() as int)
}

/// How often a command brings a plugin along.
pub open spec fn brought(cmd: GraphCommand, p: PluginHandle) -> int {
    match cmd {
        GraphCommand::SwapInstrument { instrument, .. } => same(instrument, p),
        GraphCommand::InsertEffect { effect, .. } => same(effect, p),
        GraphCommand::InsertGroupEffect { effect, .. } => same(effect, p),
        _ => 0,
    }
}

/// One if an effect takes plugin `p` away, else zero.
pub open spec fn takes(e: EffectModel, p: PluginHandle) -> int {
    match e {
        EffectModel::Return { plugin } => same(plugin, p),
        EffectModel::Discard { plugin } => same(plugin, p),
        _ => 0,
    }
}

/// How often effects take a plugin away.
pub open spec fn taken(effects: Seq<EffectModel>, p: PluginHandle) -> int
    decreases effects.len(),
{
    if effects.len() == 0 {
        0
    } else {
        taken(effects.drop_last(), p) + takes(effects.last(), p)
    }
}

proof fn inserted_occurrences(s: Seq<PluginHandle>, i: int, q: PluginHandle, p: PluginHandle)
    requires
        0 <= i <= s.len(),
    ensures
        occurrences(s.insert(i, q), p) == occurrences(s, p) + same(q, p),
    decreases s.len(),
{
    let t = s.insert(i, q);
    if i == s.len() {
        assert(t.drop_last() =~= s);
    } else {
        assert(t.drop_last() =~= s.drop_last().insert(i, q));
        assert(t.last() == s.last());
        inserted_occurrences(s.drop_last(), i, q, p);
    }
}

proof fn removed_occurrences(s: Seq<PluginHandle>, i: int, p: PluginHandle)
    requires
        0 <= i < s.len(),
    ensures
        occurrences(s.remove(i), p) == occurrences(s, p) - same(s[i], p),
{
    assert(s.remove(i).insert(i, s[i]) =~= s);
    inserted_occurrences(s.remove(i), i, s[i], p);
}

proof fn moved_occurrences(s: Seq<PluginHandle>, from: usize, to: usize, p: PluginHandle)
    requires
        from < s.len(),
        to < s.len(),
    ensures
        occurrences(moved(s, from, to), p) == occurrences(s, p),
{
    removed_occurrences(s, from as int, p);
    inserted_occurrences(s.remove(from as int), to as int, s[from as int], p);
}

/// Lanes that hold the same plugins, one for one.
pub open spec fn same_plugins(a: LaneModel, b: LaneModel) -> bool {
    a.instrument == b.instrument && a.effects == b.effects
}

proof fn lanes_hold_same(a: Seq<LaneModel>, b: Seq<LaneModel>, p: PluginHandle, n: int)
    requires
        n <= a.len(),
        n <= b.len(),
        forall|i: int| 0 <= i < n ==> same_plugins(#[trigger] a[i], b[i]),
    ensures
        lanes_hold(a, p, n) == lanes_hold(b, p, n),
    decreases n,
{
    if n > 0 {
        lanes_hold_same(a, b, p, n - 1);
        assert(same_plugins(a[n - 1], b[n - 1]));
    }
}

proof fn updated_lanes_hold(lanes: Seq<LaneModel>, i: int, l: LaneModel, p: PluginHandle, n: int)
    requires
        0 <= i < lanes.len(),
        0 <= n <= lanes.len(),
    ensures
        lanes_hold(lanes.update(i, l), p, n) == lanes_hold(lanes, p, n) + if i < n {
            lane_holds(l, p) - lane_holds(lanes[i], p)
        } else {
            0
        },
    decreases n,
{
    if n > 0 {
        updated_lanes_hold(lanes, i, l, p, n - 1);
    }
}

proof fn removed_lanes_hold(lanes: Seq<LaneModel>, i: int, p: PluginHandle, n: int)
    requires
        0 <= i < lanes.len(),
        0 <= n < lanes.len(),
    ensures
        lanes_hold(lanes.remove(i), p, n) == if n <= i {
            lanes_hold(lanes, p, n)
        } else {
            lanes_hold(lanes, p, n + 1) - lane_holds(lanes[i], p)
        },
    decreases n,
{
    if n > 0 {
        removed_lanes_hold(lanes, i, p, n - 1);
        assert(lanes.remove(i)[n - 1] == (if n - 1 < i {
            lanes[n - 1]
        } else {
            lanes[n]
        }));
        reveal_with_fuel(lanes_hold, 3);
    }
}

proof fn updated_groups_hold(
    groups: Seq<GroupModel>,
    i: int,
    b: GroupModel,
    p: PluginHandle,
    n: int,
)
    requires
        0 <= i < groups.len(),
        0 <= n <= groups.len(),
    ensures
        groups_hold(groups.update(i, b), p, n) == groups_hold(groups, p, n) + if i < n {
            occurrences(b.effects, p) - occurrences(groups[i].effects, p)
        } else {
            0
        },
    decreases n,
{
    if n > 0 {
        updated_groups_hold(groups, i, b, p, n - 1);
    }
}

proof fn removed_groups_hold(groups: Seq<GroupModel>, i: int, p: PluginHandle, n: int)
    requires
        0 <= i < groups.len(),
        0 <= n < groups.len(),
    ensures
        groups_hold(groups.remove(i), p, n) == if n <= i {
            groups_hold(groups, p, n)
        } else {
            groups_hold(groups, p, n + 1) - occurrences(groups[i].effects, p)
        },
    decreases n,
{
    if n > 0 {
        removed_groups_hold(groups, i, p, n - 1);
        assert(groups.remove(i)[n - 1] == (if n - 1 < i {
            groups[n - 1]
        } else {
            groups[n]
        }));
        reveal_with_fuel(groups_hold, 3);
    }
}

proof fn pushed_lanes_hold(lanes: Seq<LaneModel>, l: LaneModel, p: PluginHandle)
    ensures
        lanes_hold(lanes.push(l), p, lanes.len() as int + 1) == lanes_hold(lanes, p, lanes.len() as int)
            + lane_holds(l, p),
{
    lanes_hold_same(lanes, lanes.push(l), p, lanes.len() as int);
}

proof fn pushed_groups_hold(groups: Seq<GroupModel>, b: GroupModel, p: PluginHandle, n: int)
    requires
        0 <= n <= groups.len(),
    ensures
        groups_hold(groups.push(b), p, n) == groups_hold(groups, p, n),
    decreases n,
{
    if n > 0 {
        pushed_groups_hold(groups, b, p, n - 1);
    }
}

proof fn member_rack_holds(
    g: GraphModel,
    inst: usize,
    f: spec_fn(Seq<ModulatorModel>, usize) -> Seq<ModulatorModel>,
    p: PluginHandle,
)
    ensures
        held(with_member_rack(g, inst, f), p) == held(g, p),
        with_member_rack(g, inst, f).lanes == g.lanes,
        with_member_rack(g, inst, f).groups.len() == g.groups.len(),
        groups_hold(with_member_rack(g, inst, f).groups, p, g.groups.len() as int) == groups_hold(
            g.groups,
            p,
            g.groups.len() as int,
        ),
{
    if let Some((group, ordinal)) = membership(g.lanes, inst) {
        if group < g.groups.len() {
            let b = g.groups[group as int];
            updated_groups_hold(
                g.groups,
                group as int,
                GroupModel { modulators: f(b.modulators, ordinal), ..b },
                p,
                g.groups.len() as int,
            );
        }
    }
}

/// A lane is replaced by one with another number of `p`.
proof fn lane_change_holds(g: GraphModel, h: GraphModel, inst: usize, p: PluginHandle)
    requires
        h.groups == g.groups,
        h.lanes.len() == g.lanes.len(),
        forall|i: int| 0 <= i < g.lanes.len() && i != inst ==> h.lanes[i] == g.lanes[i],
    ensures
        held(h, p) == held(g, p) + if inst < g.lanes.len() {
            lane_holds(h.lanes[inst as int], p) - lane_holds(g.lanes[inst as int], p)
        } else {
            0
        },
{
    if inst < g.lanes.len() {
        assert(h.lanes =~= g.lanes.update(inst as int, h.lanes[inst as int]));
        updated_lanes_hold(
            g.lanes,
            inst as int,
            h.lanes[inst as int],
            p,
            g.lanes.len() as int,
        );
    } else {
        assert(h.lanes =~= g.lanes);
    }
}

/// A group is replaced by one with another number of `p`.
proof fn group_change_holds(g: GraphModel, h: GraphModel, group: usize, p: PluginHandle)
    requires
        h.lanes == g.lanes,
        h.groups.len() == g.groups.len(),
        forall|i: int| 0 <= i < g.groups.len() && i != group ==> h.groups[i] == g.groups[i],
    ensures
        held(h, p) == held(g, p) + if group < g.groups.len() {
            occurrences(h.groups[group as int].effects, p) - occurrences(
                g.groups[group as int].effects,
                p,
            )
        } else {
            0
        },
{
    if group < g.groups.len() {
        assert(h.groups =~= g.groups.update(group as int, h.groups[group as int]));
        updated_groups_hold(
            g.groups,
            group as int,
            h.groups[group as int],
            p,
            g.groups.len() as int,
        );
    } else {
        assert(h.groups =~= g.groups);
    }
}

proof fn lane_rack_holds(g: GraphModel, inst: usize, cmd: RackCommand, p: PluginHandle)
    ensures
        held(lane_rack_commanded(g, inst, cmd), p) == held(g, p),
{
    let f = |l: LaneModel|
        LaneModel { modulators: rack_commanded(l.modulators, cmd, lane_sample_rate(l)), ..l };
    let mid = with_lane(g, inst, f);
    lane_change_holds(g, mid, inst, p);
    member_rack_holds(
        mid,
        inst,
        |mods: Seq<ModulatorModel>, ordinal: usize| member_mirrored(mods, ordinal, cmd),
        p,
    );
}

proof fn parameter_holds(
    g: GraphModel,
    inst: usize,
    slot: usize,
    param_index: u32,
    value: F32Bits,
    timing: PatternTiming,
    p: PluginHandle,
)
    ensures
        held(
            graph_after(g, GraphCommand::SetParameter { inst, slot, param_index, value }, timing),
            p,
        ) == held(g, p),
{
    let mid = with_lane(g, inst, |l: LaneModel| param_centred(l, slot, param_index, value));
    lane_change_holds(g, mid, inst, p);
    member_rack_holds(
        mid,
        inst,
        |mods: Seq<ModulatorModel>, member: usize|
            rack_rebased(mods, ModTargetKind::GroupMember { member, slot, param_index }, value),
        p,
    );
}

proof fn taken_adds(a: Seq<EffectModel>, b: Seq<EffectModel>, p: PluginHandle)
    ensures
        taken(a + b, p) == taken(a, p) + taken(b, p),
    decreases b.len(),
{
    if b.len() == 0 {
        assert(a + b =~= a);
    } else {
        assert((a + b).drop_last() =~= a + b.drop_last());
        taken_adds(a, b.drop_last(), p);
    }
}

proof fn returned_is_taken(plugins: Seq<PluginHandle>, p: PluginHandle)
    ensures
        taken(all_returned(plugins), p) == occurrences(plugins, p),
    decreases plugins.len(),
{
    if plugins.len() > 0 {
        assert(all_returned(plugins).drop_last() =~= all_returned(plugins.drop_last()));
        returned_is_taken(plugins.drop_last(), p);
    }
}

proof fn one_is_taken(e: EffectModel, p: PluginHandle)
    ensures
        taken(seq![e], p) == takes(e, p),
{
    reveal_with_fuel(taken, 2);
    assert(seq![e].drop_last() =~= Seq::<EffectModel>::empty());
}

proof fn one_returned(plugin: Option<PluginHandle>, p: PluginHandle)
    ensures
        taken(returned(plugin), p) == same_if_any(plugin, p),
{
    if let Some(q) = plugin {
        one_is_taken(EffectModel::Return { plugin: q }, p);
    }
}

proof fn instrument_removal_holds(g: GraphModel, inst: usize, p: PluginHandle)
    requires
        inst < g.lanes.len(),
    ensures
        held(instrument_removed(g, inst), p) == held(g, p) - lane_holds(g.lanes[inst as int], p),
{
    let f = |mods: Seq<ModulatorModel>, ordinal: usize|
        rack_after(mods, RackEdit::MemberRemoved { removed: ordinal });
    member_rack_holds(g, inst, f, p);
    let rest = g.lanes.remove(inst as int);
    let n = rest.len() as int;
    removed_lanes_hold(g.lanes, inst as int, p, n);
    let h = instrument_removed(g, inst);
    lanes_hold_same(h.lanes, rest, p, n);
    if n == inst {
        assert(lanes_hold(g.lanes, p, n + 1) == lanes_hold(g.lanes, p, n) + lane_holds(
            g.lanes[n],
            p,
        ));
    }
}

proof fn group_removal_holds(g: GraphModel, group: usize, p: PluginHandle)
    requires
        group < g.groups.len(),
    ensures
        held(group_removed(g, group), p) == held(g, p) - occurrences(
            g.groups[group as int].effects,
            p,
        ),
{
    let h = group_removed(g, group);
    let n = h.groups.len() as int;
    removed_groups_hold(g.groups, group as int, p, n);
    lanes_hold_same(h.lanes, g.lanes, p, g.lanes.len() as int);
    if n == group {
        assert(groups_hold(g.groups, p, n + 1) == groups_hold(g.groups, p, n) + occurrences(
            g.groups[n].effects,
            p,
        ));
    }
}

proof fn grouping_holds(g: GraphModel, inst: usize, group: Option<usize>, p: PluginHandle)
    requires
        can_group(g, inst, group),
    ensures
        held(membership_set(g, inst, group), p) == held(g, p),
{
    let lanes = lane_grouped(g.lanes, inst, group);
    let leave = |mods: Seq<ModulatorModel>, ordinal: usize|
        rack_after(mods, RackEdit::MemberRemoved { removed: ordinal });
    let join = |mods: Seq<ModulatorModel>, ordinal: usize|
        rack_after(mods, RackEdit::MemberInserted { inserted: ordinal });
    lanes_hold_same(lanes, g.lanes, p, g.lanes.len() as int);
    member_rack_holds(g, inst, leave, p);
    let left = with_member_rack(g, inst, leave);
    member_rack_holds(GraphModel { lanes, ..left }, inst, join, p);
}

/// No plugin gets lost or appears twice: for every plugin, what the graph held
/// plus what the command brought is what the graph holds now plus what is
/// handed back or discarded.
#[verifier::spinoff_prover]
#[verifier::rlimit(60)]
pub proof fn no_plugin_gets_lost(
    g: GraphModel,
    cmd: GraphCommand,
    timing: PatternTiming,
    p: PluginHandle,
)
    ensures
        held(g, p) + brought(cmd, p) == held(graph_after(g, cmd, timing), p) + taken(
            effects_after(g, cmd, timing),
            p,
        ),
{
    let h = graph_after(g, cmd, timing);
    match cmd {
        GraphCommand::SwapInstrument { inst, instrument, .. } => {
            lane_change_holds(g, h, inst, p);
            if inst < g.lanes.len() {
                one_returned(g.lanes[inst as int].instrument, p);
            } else {
                one_is_taken(EffectModel::Discard { plugin: instrument }, p);
            }
        },
        GraphCommand::InsertEffect { inst, index, effect, .. } => {
            one_is_taken(EffectModel::Discard { plugin: effect }, p);
            one_is_taken(EffectModel::Return { plugin: effect }, p);
            lane_change_holds(g, h, inst, p);
            if inst < g.lanes.len() {
                let effects = g.lanes[inst as int].effects;
                inserted_occurrences(effects, clip(index, effects.len()), effect, p);
            }
        },
        GraphCommand::RemoveEffect { inst, index } => {
            lane_change_holds(g, h, inst, p);
            if inst < g.lanes.len() && index < g.lanes[inst as int].effects.len() {
                let effects = g.lanes[inst as int].effects;
                removed_occurrences(effects, index as int, p);
                one_is_taken(EffectModel::Return { plugin: effects[index as int] }, p);
            }
        },
        GraphCommand::ReorderEffect { inst, from, to } => {
            lane_change_holds(g, h, inst, p);
            if inst < g.lanes.len() && can_move(g.lanes[inst as int].effects.len(), from, to) {
                moved_occurrences(g.lanes[inst as int].effects, from, to, p);
            }
        },
        GraphCommand::ClearInstrument { inst } => {
            lane_change_holds(g, h, inst, p);
            if inst < g.lanes.len() {
                one_returned(g.lanes[inst as int].instrument, p);
            }
        },
        GraphCommand::SetPatternRecording { inst, recording } => {
            lane_change_holds(g, h, inst, p);
            let e = effects_after(g, cmd, timing);
            if e.len() > 0 {
                one_is_taken(e[0], p);
                assert(e =~= seq![e[0]]);
            }
        },
        GraphCommand::SetParameter { inst, slot, param_index, value } => {
            parameter_holds(g, inst, slot, param_index, value, timing, p);
            let e = effects_after(g, cmd, timing);
            if e.len() > 0 {
                one_is_taken(e[0], p);
                assert(e =~= seq![e[0]]);
            }
        },
        GraphCommand::LoadPreset { .. } => {
            let e = effects_after(g, cmd, timing);
            if e.len() > 0 {
                one_is_taken(e[0], p);
                assert(e =~= seq![e[0]]);
            }
        },
        GraphCommand::SwapInstruments { inst_a, inst_b } => {
            if inst_a < g.lanes.len() && inst_b < g.lanes.len() {
                let a = g.lanes[inst_a as int];
                let b = g.lanes[inst_b as int];
                let mid = GraphModel {
                    lanes: g.lanes.update(inst_a as int, instrument_taken(a, b)),
                    ..g
                };
                lane_change_holds(g, mid, inst_a, p);
                lane_change_holds(mid, h, inst_b, p);
            }
        },
        GraphCommand::AddInstrument { range } => {
            pushed_lanes_hold(g.lanes, h.lanes.last(), p);
        },
        GraphCommand::RemoveInstrument { inst } => {
            if inst < g.lanes.len() {
                let l = g.lanes[inst as int];
                instrument_removal_holds(g, inst, p);
                one_returned(l.instrument, p);
                returned_is_taken(l.effects, p);
                taken_adds(returned(l.instrument), all_returned(l.effects), p);
            }
        },
        GraphCommand::AddGroup => {
            pushed_groups_hold(g.groups, fresh_group(), p, g.groups.len() as int);
        },
        GraphCommand::RemoveGroup { group } => {
            if group < g.groups.len() {
                group_removal_holds(g, group, p);
                returned_is_taken(g.groups[group as int].effects, p);
            }
        },
        GraphCommand::SetLaneGroup { inst, group } => {
            if can_group(g, inst, group) {
                grouping_holds(g, inst, group, p);
            }
        },
        GraphCommand::InsertGroupEffect { group, index, effect, .. } => {
            one_is_taken(EffectModel::Discard { plugin: effect }, p);
            one_is_taken(EffectModel::Return { plugin: effect }, p);
            group_change_holds(g, h, group, p);
            if group < g.groups.len() {
                let effects = g.groups[group as int].effects;
                inserted_occurrences(effects, clip(index, effects.len()), effect, p);
            }
        },
        GraphCommand::RemoveGroupEffect { group, index } => {
            group_change_holds(g, h, group, p);
            if group < g.groups.len() && index < g.groups[group as int].effects.len() {
                let effects = g.groups[group as int].effects;
                removed_occurrences(effects, index as int, p);
                one_is_taken(EffectModel::Return { plugin: effects[index as int] }, p);
            }
        },
        GraphCommand::ReorderGroupEffect { group, from, to } => {
            group_change_holds(g, h, group, p);
            if group < g.groups.len() && can_move(
                g.groups[group as int].effects.len(),
                from,
                to,
            ) {
                moved_occurrences(g.groups[group as int].effects, from, to, p);
            }
        },
        GraphCommand::SetGroupParameter { group, .. } => {
            group_change_holds(g, h, group, p);
            let e = effects_after(g, cmd, timing);
            if e.len() > 0 {
                one_is_taken(e[0], p);
                assert(e =~= seq![e[0]]);
            }
        },
        GraphCommand::SwapPatterns { .. } => {
            lanes_hold_same(h.lanes, g.lanes, p, g.lanes.len() as int);
        },
        GraphCommand::SetGlobalBpm { .. } => {
            lanes_hold_same(h.lanes, g.lanes, p, g.lanes.len() as int);
        },
        GraphCommand::SetPattern { inst, .. } => {
            lane_change_holds(g, h, inst, p);
        },
        GraphCommand::ClearPattern { inst, .. } => {
            lane_change_holds(g, h, inst, p);
        },
        GraphCommand::SetMix { inst, .. } => {
            lane_change_holds(g, h, inst, p);
        },
        GraphCommand::SetVolume { inst, .. } => {
            lane_change_holds(g, h, inst, p);
        },
        GraphCommand::SetInstrumentRange { inst, .. } => {
            lane_change_holds(g, h, inst, p);
        },
        GraphCommand::SetTranspose { inst, .. } => {
            lane_change_holds(g, h, inst, p);
        },
        GraphCommand::SetPatternEnabled { inst, .. } => {
            lane_change_holds(g, h, inst, p);
        },
        GraphCommand::SetPatternLength { inst, .. } => {
            lane_change_holds(g, h, inst, p);
        },
        GraphCommand::SetPatternLooping { inst, .. } => {
            lane_change_holds(g, h, inst, p);
        },
        GraphCommand::SetPatternInKey { inst, .. } => {
            lane_change_holds(g, h, inst, p);
        },
        GraphCommand::SetGroupVolume { group, .. } => {
            group_change_holds(g, h, group, p);
        },
        GraphCommand::SetGroupPan { group, .. } => {
            group_change_holds(g, h, group, p);
        },
        GraphCommand::SetGroupMix { group, .. } => {
            group_change_holds(g, h, group, p);
        },
        GraphCommand::InsertGroupModulator { group, .. } => {
            group_change_holds(g, h, group, p);
        },
        GraphCommand::RemoveGroupModulator { group, .. } => {
            group_change_holds(g, h, group, p);
        },
        GraphCommand::SetGroupModulatorRate { group, .. } => {
            group_change_holds(g, h, group, p);
        },
        GraphCommand::SetGroupModulatorWaveform { group, .. } => {
            group_change_holds(g, h, group, p);
        },
        GraphCommand::SetGroupModulatorSource { group, .. } => {
            group_change_holds(g, h, group, p);
        },
        GraphCommand::SetGroupModulatorEnvelopeParam { group, .. } => {
            group_change_holds(g, h, group, p);
        },
        GraphCommand::AddGroupModTarget { group, .. } => {
            group_change_holds(g, h, group, p);
        },
        GraphCommand::RemoveGroupModTarget { group, .. } => {
            group_change_holds(g, h, group, p);
        },
        GraphCommand::SetGroupModTargetDepth { group, .. } => {
            group_change_holds(g, h, group, p);
        },
        GraphCommand::InsertModulator { inst, index, source } => {
            lane_rack_holds(g, inst, RackCommand::Insert { index, source }, p);
        },
        GraphCommand::RemoveModulator { inst, index } => {
            lane_rack_holds(g, inst, RackCommand::Remove { index }, p);
        },
        GraphCommand::SetModulatorRate { inst, mod_index, rate } => {
            lane_rack_holds(g, inst, RackCommand::SetRate { mod_index, rate }, p);
        },
        GraphCommand::SetModulatorWaveform { inst, mod_index, waveform } => {
            lane_rack_holds(g, inst, RackCommand::SetWaveform { mod_index, waveform }, p);
        },
        GraphCommand::SetModulatorSource { inst, mod_index, source } => {
            lane_rack_holds(g, inst, RackCommand::SetSource { mod_index, source }, p);
        },
        GraphCommand::SetModulatorEnvelopeParam { inst, mod_index, attack, decay, sustain, release } => {
            lane_rack_holds(g, inst, RackCommand::SetEnvelope { mod_index, attack, decay, sustain, release }, p);
        },
        GraphCommand::AddModTarget { inst, mod_index, target } => {
            lane_rack_holds(g, inst, RackCommand::AddTarget { mod_index, target }, p);
        },
        GraphCommand::RemoveModTarget { inst, mod_index, target_index } => {
            lane_rack_holds(g, inst, RackCommand::RemoveTarget { mod_index, target_index }, p);
        },
        GraphCommand::SetModTargetDepth { inst, mod_index, target_index, depth } => {
            lane_rack_holds(g, inst, RackCommand::SetDepth { mod_index, target_index, depth }, p);
        },
    }
}

// ---------------------------------------------------------------------------
// A queue of commands
// ---------------------------------------------------------------------------

/// Commands, each with the timing at which it is carried out.
pub type CommandQueue = Seq<(GraphCommand, PatternTiming)>;

/// The graph once a queue of commands has been carried out.
pub open spec fn graph_drained(g: GraphModel, queue: CommandQueue) -> GraphModel
    decreases queue.len(),
{
    if queue.len() == 0 {
        g
    } else {
        let (cmd, timing) = queue.last();
        graph_after(graph_drained(g, queue.drop_last()), cmd, timing)
    }
}

/// What a queue of commands calls for, in order.
pub open spec fn effects_drained(g: GraphModel, queue: CommandQueue) -> Seq<EffectModel>
    decreases queue.len(),
{
    if queue.len() == 0 {
        Seq::empty()
    } else {
        let (cmd, timing) = queue.last();
        effects_drained(g, queue.drop_last()) + effects_after(
            graph_drained(g, queue.drop_last()),
            cmd,
            timing,
        )
    }
}

/// How often a queue of commands brings a plugin along.
pub open spec fn queue_brings(queue: CommandQueue, p: PluginHandle) -> int
    decreases queue.len(),
{
    if queue.len() == 0 {
        0
    } else {
        queue_brings(queue.drop_last(), p) + brought(queue.last().0, p)
    }
}

/// A command that brings a plugin addresses a lane or group that exists.
pub open spec fn finds_place(g: GraphModel, cmd: GraphCommand) -> bool {
    match cmd {
        GraphCommand::SwapInstrument { inst, .. } => inst < g.lanes.len(),
        GraphCommand::InsertEffect { inst, .. } => inst < g.lanes.len(),
        GraphCommand::InsertGroupEffect { group, .. } => group < g.groups.len(),
        _ => true,
    }
}

/// Every command of a queue finds its place when its turn comes.
pub open spec fn queue_finds_places(g: GraphModel, queue: CommandQueue) -> bool
    decreases queue.len(),
{
    queue.len() == 0 || {
        &&& queue_finds_places(g, queue.drop_last())
        &&& finds_place(graph_drained(g, queue.drop_last()), queue.last().0)
    }
}

/// How often effects hand a plugin back.
pub open spec fn handed_back(effects: Seq<EffectModel>, p: PluginHandle) -> int
    decreases effects.len(),
{
    if effects.len() == 0 {
        0
    } else {
        handed_back(effects.drop_last(), p) + match effects.last() {
            EffectModel::Return { plugin } => same(plugin, p),
            _ => 0,
        }
    }
}

proof fn kept_is_handed_back(effects: Seq<EffectModel>, p: PluginHandle)
    requires
        forall|i: int| 0 <= i < effects.len() ==> (#[trigger] effects[i]) !is Discard,
    ensures
        taken(effects, p) == handed_back(effects, p),
    decreases effects.len(),
{
    if effects.len() > 0 {
        let rest = effects.drop_last();
        assert forall|i: int| 0 <= i < rest.len() implies (#[trigger] rest[i]) !is Discard by {
            assert(rest[i] == effects[i]);
        }
        kept_is_handed_back(rest, p);
        assert(effects.last() == effects[effects.len() - 1]);
    }
}

/// A command that finds its place discards nothing.
pub proof fn placed_commands_discard_nothing(
    g: GraphModel,
    cmd: GraphCommand,
    timing: PatternTiming,
)
    requires
        finds_place(g, cmd),
    ensures
        forall|i: int|
            0 <= i < effects_after(g, cmd, timing).len() ==> (#[trigger] effects_after(
                g,
                cmd,
                timing,
            )[i]) !is Discard,
{
}

/// An effect whose channels do not fit is handed back, and the graph stays as it
/// is.
pub proof fn misfit_effects_come_back(g: GraphModel, cmd: GraphCommand, timing: PatternTiming)
    ensures
        cmd matches GraphCommand::InsertEffect { inst, effect, .. } ==> inst < g.lanes.len()
            && effect.outputs != g.num_channels ==> graph_after(g, cmd, timing) == g
            && effects_after(g, cmd, timing) == seq![EffectModel::Return { plugin: effect }],
        cmd matches GraphCommand::InsertGroupEffect { group, effect, .. } ==> group
            < g.groups.len() && effect.outputs != g.num_channels ==> graph_after(g, cmd, timing)
            == g && effects_after(g, cmd, timing) == seq![EffectModel::Return { plugin: effect }],
{
}

/// A queue of commands loses no plugin: for every plugin, what the graph held
/// plus what the commands brought is what the graph holds in the end plus what
/// was handed back or discarded. Where every command finds its place, nothing is
/// discarded.
pub proof fn no_queue_loses_plugins(g: GraphModel, queue: CommandQueue, p: PluginHandle)
    ensures
        held(g, p) + queue_brings(queue, p) == held(graph_drained(g, queue), p) + taken(
            effects_drained(g, queue),
            p,
        ),
        queue_finds_places(g, queue) ==> {
            &&& forall|i: int|
                0 <= i < effects_drained(g, queue).len() ==> (#[trigger] effects_drained(
                    g,
                    queue,
                )[i]) !is Discard
            &&& held(g, p) + queue_brings(queue, p) == held(graph_drained(g, queue), p)
                + handed_back(effects_drained(g, queue), p)
        },
    decreases queue.len(),
{
    if queue.len() > 0 {
        let rest = queue.drop_last();
        let (cmd, timing) = queue.last();
        let mid = graph_drained(g, rest);
        no_queue_loses_plugins(g, rest, p);
        no_plugin_gets_lost(mid, cmd, timing, p);
        taken_adds(effects_drained(g, rest), effects_after(mid, cmd, timing), p);
        if queue_finds_places(g, queue) {
            placed_commands_discard_nothing(mid, cmd, timing);
        }
    }
    if queue_finds_places(g, queue) {
        kept_is_handed_back(effects_drained(g, queue), p);
    }
}

} // verus!
