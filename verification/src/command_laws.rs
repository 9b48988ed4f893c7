//! What each command changes, and that it changes nothing else.

use vstd::prelude::*;

use crate::bus::GroupModel;
use crate::command::{
    effects_after, graph_after, EffectModel, GraphCommand, PatternTiming,
};
use crate::graph::{membership, GraphModel};
use crate::lane::{remapper_view, LaneModel, PluginHandle};
use crate::modulation::{rack_after, rack_rebased, CrossModField, ModTargetKind, RackEdit};
use crate::modulator_laws::place;
use crate::pattern::{NotificationModel, PlayerModel};
use crate::rack::{rack_commanded, RackCommand};
use crate::scalar::{F32Bits, F64Bits};

verus! {

// ---------------------------------------------------------------------------
// One lane or one group
// ---------------------------------------------------------------------------

/// The graph has lane `l` at `inst` and is otherwise as it was; without such a
/// lane nothing has changed.
pub open spec fn lane_became(g: GraphModel, h: GraphModel, inst: usize, l: LaneModel) -> bool {
    if inst < g.lanes.len() {
        h == (GraphModel { lanes: g.lanes.update(inst as int, l), ..g })
    } else {
        h == g
    }
}

/// The graph has group `b` at `group` and is otherwise as it was; without such a
/// group nothing has changed.
pub open spec fn group_became(g: GraphModel, h: GraphModel, group: usize, b: GroupModel) -> bool {
    if group < g.groups.len() {
        h == (GraphModel { groups: g.groups.update(group as int, b), ..g })
    } else {
        h == g
    }
}

/// The commands for volume, range and transposition set them on the lane that
/// they name, and nothing else.
pub proof fn lane_settings_are_set(
    g: GraphModel,
    inst: usize,
    value: F32Bits,
    range: Option<(u8, u8)>,
    semitones: i8,
    timing: PatternTiming,
)
    ensures
        ({
            let l = g.lanes[inst as int];
            &&& lane_became(
                g,
                graph_after(g, GraphCommand::SetVolume { inst, value }, timing),
                inst,
                LaneModel { volume: value, ..l },
            )
            &&& lane_became(
                g,
                graph_after(g, GraphCommand::SetInstrumentRange { inst, range }, timing),
                inst,
                LaneModel { range, ..l },
            )
            &&& lane_became(
                g,
                graph_after(g, GraphCommand::SetTranspose { inst, semitones }, timing),
                inst,
                LaneModel { transpose: semitones, ..l },
            )
            &&& effects_after(g, GraphCommand::SetVolume { inst, value }, timing).len() == 0
            &&& effects_after(g, GraphCommand::SetInstrumentRange { inst, range }, timing).len()
                == 0
            &&& effects_after(g, GraphCommand::SetTranspose { inst, semitones }, timing).len() == 0
        }),
{
}

/// The commands for a pattern's modes and length set them on the lane that they
/// name, and nothing else; a tempo is set on every lane.
pub proof fn pattern_settings_are_set(
    g: GraphModel,
    inst: usize,
    flag: bool,
    value: F32Bits,
    timing: PatternTiming,
    i: int,
)
    ensures
        ({
            let l = g.lanes[inst as int];
            let p = l.pattern;
            let bpm = graph_after(g, GraphCommand::SetGlobalBpm { bpm: value }, timing);
            &&& lane_became(
                g,
                graph_after(g, GraphCommand::SetPatternEnabled { inst, enabled: flag }, timing),
                inst,
                LaneModel { pattern: PlayerModel { enabled: flag, ..p }, ..l },
            )
            &&& lane_became(
                g,
                graph_after(g, GraphCommand::SetPatternLooping { inst, looping: flag }, timing),
                inst,
                LaneModel { pattern: PlayerModel { looping: flag, ..p }, ..l },
            )
            &&& lane_became(
                g,
                graph_after(g, GraphCommand::SetPatternInKey { inst, in_key: flag }, timing),
                inst,
                LaneModel { pattern: PlayerModel { in_key: flag, ..p }, ..l },
            )
            &&& lane_became(
                g,
                graph_after(g, GraphCommand::SetPatternLength { inst, beats: value }, timing),
                inst,
                LaneModel { pattern: PlayerModel { length_beats: value, ..p }, ..l },
            )
            &&& bpm.lanes.len() == g.lanes.len()
            &&& bpm.groups == g.groups
            &&& bpm.num_channels == g.num_channels
            &&& bpm.notifies == g.notifies
            &&& 0 <= i < g.lanes.len() ==> bpm.lanes[i] == (LaneModel {
                pattern: PlayerModel { bpm: value, ..g.lanes[i].pattern },
                ..g.lanes[i]
            })
        }),
{
}

/// A mix is set on the effect in the slot that is named, an instrument has none;
/// on a bus it is set on the effect with the index.
pub proof fn mixes_are_set(
    g: GraphModel,
    inst: usize,
    slot: usize,
    value: F64Bits,
    timing: PatternTiming,
)
    ensures
        ({
            let h = graph_after(g, GraphCommand::SetMix { inst, slot, value }, timing);
            let l = g.lanes[inst as int];
            let k = graph_after(
                g,
                GraphCommand::SetGroupMix { group: inst, index: slot, value },
                timing,
            );
            let b = g.groups[inst as int];
            &&& 1 <= slot <= l.mix_values.len() ==> lane_became(
                g,
                h,
                inst,
                LaneModel { mix_values: l.mix_values.update(slot - 1, value), ..l },
            )
            &&& slot == 0 || slot > l.mix_values.len() ==> h =~= g
            &&& slot < b.mix_values.len() ==> group_became(
                g,
                k,
                inst,
                GroupModel { mix_values: b.mix_values.update(slot as int, value), ..b },
            )
            &&& slot >= b.mix_values.len() ==> k =~= g
        }),
{
}

/// A group's volume is set as it is given; its pan is too, within -1..=1: beyond
/// it becomes the nearer end.
pub proof fn group_settings_are_set(
    g: GraphModel,
    group: usize,
    value: F32Bits,
    timing: PatternTiming,
)
    ensures
        ({
            let b = g.groups[group as int];
            let h = graph_after(g, GraphCommand::SetGroupPan { group, value }, timing);
            let number = -0x7f80_0000 <= place(value) <= 0x7f80_0000;
            let panned = if number && place(value) > 0x3f80_0000 {
                F32Bits { bits: 0x3f80_0000 }
            } else if number && place(value) < -0x3f80_0000 {
                F32Bits { bits: 0xbf80_0000 }
            } else {
                value
            };
            &&& group_became(
                g,
                graph_after(g, GraphCommand::SetGroupVolume { group, value }, timing),
                group,
                GroupModel { volume: value, ..b },
            )
            &&& group_became(g, h, group, GroupModel { pan: panned, ..b })
        }),
{
}

// ---------------------------------------------------------------------------
// Instruments
// ---------------------------------------------------------------------------

/// A new instrument takes its place with its outputs and remapper; volume,
/// effects and pattern stay, and the old instrument is handed back. Without such
/// a lane the instrument is dropped.
pub proof fn instruments_are_swapped_in(
    g: GraphModel,
    inst: usize,
    instrument: PluginHandle,
    inst_outputs: usize,
    remapper: Option<crate::remap::NoteRemapper>,
    timing: PatternTiming,
)
    ensures
        ({
            let cmd = GraphCommand::SwapInstrument { inst, instrument, inst_outputs, remapper };
            let l = g.lanes[inst as int];
            let e = effects_after(g, cmd, timing);
            &&& lane_became(
                g,
                graph_after(g, cmd, timing),
                inst,
                LaneModel {
                    instrument: Some(instrument),
                    inst_outputs,
                    remapper: remapper_view(remapper),
                    ..l
                },
            )
            &&& inst >= g.lanes.len() ==> e == seq![EffectModel::Discard { plugin: instrument }]
            &&& inst < g.lanes.len() && l.instrument is None ==> e.len() == 0
            &&& inst < g.lanes.len() && l.instrument is Some ==> e == seq![
                EffectModel::Return { plugin: l.instrument->0 },
            ]
        }),
{
}

/// Taking the instrument out of a lane takes its outputs, remapper and the
/// modulators of the lane with it; effects, settings and pattern stay, and the
/// instrument is handed back.
pub proof fn instruments_are_cleared(g: GraphModel, inst: usize, timing: PatternTiming)
    ensures
        ({
            let cmd = GraphCommand::ClearInstrument { inst };
            let l = g.lanes[inst as int];
            let e = effects_after(g, cmd, timing);
            &&& lane_became(
                g,
                graph_after(g, cmd, timing),
                inst,
                LaneModel {
                    instrument: None,
                    inst_outputs: 0,
                    remapper: None,
                    modulators: Seq::empty(),
                    ..l
                },
            )
            &&& inst >= g.lanes.len() || l.instrument is None ==> e.len() == 0
            &&& inst < g.lanes.len() && l.instrument is Some ==> e == seq![
                EffectModel::Return { plugin: l.instrument->0 },
            ]
        }),
{
}

/// Swapping two lanes' instruments exchanges instrument, outputs and remapper and
/// leaves all else; swapping again restores the graph. A lane that is not there
/// swaps nothing.
pub proof fn instruments_change_places(
    g: GraphModel,
    a: usize,
    b: usize,
    timing: PatternTiming,
    i: int,
)
    ensures
        ({
            let cmd = GraphCommand::SwapInstruments { inst_a: a, inst_b: b };
            let h = graph_after(g, cmd, timing);
            let from = if i == a {
                g.lanes[b as int]
            } else if i == b {
                g.lanes[a as int]
            } else {
                g.lanes[i]
            };
            &&& h.groups == g.groups
            &&& h.lanes.len() == g.lanes.len()
            &&& a >= g.lanes.len() || b >= g.lanes.len() ==> h == g
            &&& a < g.lanes.len() && b < g.lanes.len() && 0 <= i < g.lanes.len() ==> h.lanes[i]
                == (LaneModel {
                instrument: from.instrument,
                inst_outputs: from.inst_outputs,
                remapper: from.remapper,
                ..g.lanes[i]
            })
            &&& graph_after(h, cmd, timing) =~= g
            &&& effects_after(g, cmd, timing).len() == 0
        }),
{
    let cmd = GraphCommand::SwapInstruments { inst_a: a, inst_b: b };
    let h = graph_after(g, cmd, timing);
    assert(graph_after(h, cmd, timing).lanes =~= g.lanes);
}

// ---------------------------------------------------------------------------
// Effects
// ---------------------------------------------------------------------------

/// A list has one more element, at `at`; the others keep their order.
pub open spec fn put_in<A>(before: Seq<A>, after: Seq<A>, at: int, a: A) -> bool {
    &&& after.len() == before.len() + 1
    &&& 0 <= at < after.len()
    &&& after[at] == a
    &&& after.remove(at) == before
}

/// A list has one element less, the one at `at`; the others keep their order.
pub open spec fn taken_out<A>(before: Seq<A>, after: Seq<A>, at: int) -> bool {
    0 <= at < before.len() && put_in(after, before, at, before[at])
}

/// An element has gone from one place to another; the others keep their order.
pub open spec fn gone<A>(before: Seq<A>, after: Seq<A>, from: int, to: int) -> bool {
    &&& after.len() == before.len()
    &&& after[to] == before[from]
    &&& after.remove(to) == before.remove(from)
}

/// Where an insertion takes place: at the index, or at the end if that is
/// nearer.
pub open spec fn nearest(index: usize, len: nat) -> int {
    if index <= len {
        index as int
    } else {
        len as int
    }
}

/// An inserted effect stands with its mix at its index, or at the end, and the
/// lane's targets make room for it. One with another number of outputs than the
/// graph has channels is handed back, and without such a lane it is dropped; the
/// graph is then left.
pub proof fn effects_are_inserted(
    g: GraphModel,
    inst: usize,
    index: usize,
    effect: PluginHandle,
    mix: F64Bits,
    timing: PatternTiming,
)
    requires
        crate::graph::graph_valid(g),
    ensures
        ({
            let cmd = GraphCommand::InsertEffect { inst, index, effect, mix };
            let h = graph_after(g, cmd, timing);
            let e = effects_after(g, cmd, timing);
            let l = g.lanes[inst as int];
            let m = h.lanes[inst as int];
            let at = nearest(index, l.effects.len());
            &&& inst >= g.lanes.len() ==> h == g && e == seq![EffectModel::Discard { plugin: effect }]
            &&& inst < g.lanes.len() && effect.outputs != g.num_channels ==> h == g && e == seq![
                EffectModel::Return { plugin: effect },
            ]
            &&& inst < g.lanes.len() && effect.outputs == g.num_channels ==> {
                &&& e.len() == 0
                &&& lane_became(g, h, inst, m)
                &&& m == (LaneModel {
                    effects: m.effects,
                    mix_values: m.mix_values,
                    modulators: m.modulators,
                    ..l
                })
                &&& put_in(l.effects, m.effects, at, effect)
                &&& put_in(l.mix_values, m.mix_values, at, mix)
                &&& m.modulators == rack_after(
                    l.modulators,
                    RackEdit::EffectInserted { at: at as usize },
                )
            }
        }),
{
    if inst < g.lanes.len() && effect.outputs == g.num_channels {
        let cmd = GraphCommand::InsertEffect { inst, index, effect, mix };
        let l = g.lanes[inst as int];
        let m = graph_after(g, cmd, timing).lanes[inst as int];
        let at = nearest(index, l.effects.len());
        assert(l.effects.len() == l.mix_values.len());
        assert(m.effects.remove(at) =~= l.effects);
        assert(m.mix_values.remove(at) =~= l.mix_values);
    }
}

/// A removed effect goes with its mix and its targets and is handed back; an
/// index out of range removes nothing.
pub proof fn effects_are_removed(g: GraphModel, inst: usize, index: usize, timing: PatternTiming)
    requires
        crate::graph::graph_valid(g),
    ensures
        ({
            let cmd = GraphCommand::RemoveEffect { inst, index };
            let h = graph_after(g, cmd, timing);
            let e = effects_after(g, cmd, timing);
            let l = g.lanes[inst as int];
            let m = h.lanes[inst as int];
            let hit = inst < g.lanes.len() && index < l.effects.len();
            &&& !hit ==> h =~= g && e.len() == 0
            &&& hit ==> {
                &&& e == seq![EffectModel::Return { plugin: l.effects[index as int] }]
                &&& lane_became(g, h, inst, m)
                &&& m == (LaneModel {
                    effects: m.effects,
                    mix_values: m.mix_values,
                    modulators: m.modulators,
                    ..l
                })
                &&& taken_out(l.effects, m.effects, index as int)
                &&& taken_out(l.mix_values, m.mix_values, index as int)
                &&& m.modulators == rack_after(
                    l.modulators,
                    RackEdit::EffectRemoved { removed: index },
                )
            }
        }),
{
}

/// A moved effect takes its mix along, and targets follow it; a place out of
/// range moves nothing.
pub proof fn effects_are_moved(
    g: GraphModel,
    inst: usize,
    from: usize,
    to: usize,
    timing: PatternTiming,
)
    requires
        crate::graph::graph_valid(g),
    ensures
        ({
            let cmd = GraphCommand::ReorderEffect { inst, from, to };
            let h = graph_after(g, cmd, timing);
            let l = g.lanes[inst as int];
            let m = h.lanes[inst as int];
            let hit = inst < g.lanes.len() && from < l.effects.len() && to < l.effects.len()
                && from != to;
            &&& effects_after(g, cmd, timing).len() == 0
            &&& !hit ==> h =~= g
            &&& hit ==> {
                &&& lane_became(g, h, inst, m)
                &&& m == (LaneModel {
                    effects: m.effects,
                    mix_values: m.mix_values,
                    modulators: m.modulators,
                    ..l
                })
                &&& gone(l.effects, m.effects, from as int, to as int)
                &&& gone(l.mix_values, m.mix_values, from as int, to as int)
                &&& m.modulators == rack_after(l.modulators, RackEdit::EffectMoved { from, to })
            }
        }),
{
    let cmd = GraphCommand::ReorderEffect { inst, from, to };
    let l = g.lanes[inst as int];
    let m = graph_after(g, cmd, timing).lanes[inst as int];
    if inst < g.lanes.len() && from < l.effects.len() && to < l.effects.len() && from != to {
        assert(l.effects.len() == l.mix_values.len());
        assert(m.effects.remove(to as int) =~= l.effects.remove(from as int));
        assert(m.mix_values.remove(to as int) =~= l.mix_values.remove(from as int));
    }
}

/// On a bus, effects are inserted, removed and moved as in a lane; an inserted
/// one shifts no targets.
pub proof fn bus_effects_are_edited(
    g: GraphModel,
    group: usize,
    index: usize,
    to: usize,
    effect: PluginHandle,
    mix: F64Bits,
    timing: PatternTiming,
)
    requires
        crate::graph::graph_valid(g),
    ensures
        ({
            let cmd = GraphCommand::InsertGroupEffect { group, index, effect, mix };
            let h = graph_after(g, cmd, timing);
            let e = effects_after(g, cmd, timing);
            let b = g.groups[group as int];
            let c = h.groups[group as int];
            let at = nearest(index, b.effects.len());
            &&& group >= g.groups.len() ==> h == g && e == seq![
                EffectModel::Discard { plugin: effect },
            ]
            &&& group < g.groups.len() && effect.outputs != g.num_channels ==> h == g && e == seq![
                EffectModel::Return { plugin: effect },
            ]
            &&& group < g.groups.len() && effect.outputs == g.num_channels ==> {
                &&& e.len() == 0
                &&& group_became(g, h, group, c)
                &&& c == (GroupModel { effects: c.effects, mix_values: c.mix_values, ..b })
                &&& put_in(b.effects, c.effects, at, effect)
                &&& put_in(b.mix_values, c.mix_values, at, mix)
            }
        }),
        ({
            let cmd = GraphCommand::RemoveGroupEffect { group, index };
            let h = graph_after(g, cmd, timing);
            let e = effects_after(g, cmd, timing);
            let b = g.groups[group as int];
            let c = h.groups[group as int];
            let hit = group < g.groups.len() && index < b.effects.len();
            &&& !hit ==> h =~= g && e.len() == 0
            &&& hit ==> {
                &&& e == seq![EffectModel::Return { plugin: b.effects[index as int] }]
                &&& group_became(g, h, group, c)
                &&& c == (GroupModel {
                    effects: c.effects,
                    mix_values: c.mix_values,
                    modulators: c.modulators,
                    ..b
                })
                &&& taken_out(b.effects, c.effects, index as int)
                &&& taken_out(b.mix_values, c.mix_values, index as int)
                &&& c.modulators == rack_after(
                    b.modulators,
                    RackEdit::BusEffectRemoved { removed: index },
                )
            }
        }),
        ({
            let cmd = GraphCommand::ReorderGroupEffect { group, from: index, to };
            let h = graph_after(g, cmd, timing);
            let b = g.groups[group as int];
            let c = h.groups[group as int];
            let hit = group < g.groups.len() && index < b.effects.len() && to < b.effects.len()
                && index != to;
            &&& effects_after(g, cmd, timing).len() == 0
            &&& !hit ==> h =~= g
            &&& hit ==> {
                &&& group_became(g, h, group, c)
                &&& c == (GroupModel {
                    effects: c.effects,
                    mix_values: c.mix_values,
                    modulators: c.modulators,
                    ..b
                })
                &&& gone(b.effects, c.effects, index as int, to as int)
                &&& gone(b.mix_values, c.mix_values, index as int, to as int)
                &&& c.modulators == rack_after(
                    b.modulators,
                    RackEdit::BusEffectMoved { from: index, to },
                )
            }
        }),
{
    let b = g.groups[group as int];
    if group < g.groups.len() {
        assert(b.effects.len() == b.mix_values.len());
        let at = nearest(index, b.effects.len());
        let c = graph_after(
            g,
            GraphCommand::InsertGroupEffect { group, index, effect, mix },
            timing,
        ).groups[group as int];
        if effect.outputs == g.num_channels {
            assert(c.effects.remove(at) =~= b.effects);
            assert(c.mix_values.remove(at) =~= b.mix_values);
        }
        let d = graph_after(
            g,
            GraphCommand::ReorderGroupEffect { group, from: index, to },
            timing,
        ).groups[group as int];
        if index < b.effects.len() && to < b.effects.len() && index != to {
            assert(d.effects.remove(to as int) =~= b.effects.remove(index as int));
            assert(d.mix_values.remove(to as int) =~= b.mix_values.remove(index as int));
        }
    }
}

// ---------------------------------------------------------------------------
// Parameters and presets
// ---------------------------------------------------------------------------

/// The plugin of a lane's slot: the instrument in slot 0, then the effects.
pub open spec fn in_slot(l: LaneModel, slot: usize) -> Option<PluginHandle> {
    if slot == 0 {
        l.instrument
    } else if slot - 1 < l.effects.len() {
        Some(l.effects[slot - 1])
    } else {
        None
    }
}

/// A parameter of a lane is set on the plugin in its slot, if there is one. The
/// lane's targets on it move around the new value, and so do those of the lane's
/// group on this member; nothing else changes. A preset is loaded on the plugin
/// in its slot.
pub proof fn parameters_are_set_on_their_plugin(
    g: GraphModel,
    inst: usize,
    slot: usize,
    param_index: u32,
    value: F32Bits,
    preset_id: String,
    timing: PatternTiming,
)
    ensures
        ({
            let cmd = GraphCommand::SetParameter { inst, slot, param_index, value };
            let load = GraphCommand::LoadPreset { inst, slot, preset_id };
            let h = graph_after(g, cmd, timing);
            let l = g.lanes[inst as int];
            let plugin = if inst < g.lanes.len() {
                in_slot(l, slot)
            } else {
                None
            };
            let centred = LaneModel {
                modulators: rack_rebased(
                    l.modulators,
                    ModTargetKind::PluginParam { slot, param_index },
                    value,
                ),
                ..l
            };
            &&& plugin is None ==> effects_after(g, cmd, timing).len() == 0 && effects_after(
                g,
                load,
                timing,
            ).len() == 0
            &&& plugin is Some ==> {
                &&& effects_after(g, cmd, timing) == seq![
                    EffectModel::SetParameter { plugin: plugin->0, param_index, value },
                ]
                &&& effects_after(g, load, timing) == seq![
                    EffectModel::LoadPreset { plugin: plugin->0, preset_id: preset_id@ },
                ]
            }
            &&& graph_after(g, load, timing) == g
            &&& lane_became(g, GraphModel { groups: g.groups, ..h }, inst, centred)
            &&& h.groups.len() == g.groups.len()
            &&& match membership(g.lanes, inst) {
                None => h.groups == g.groups,
                Some((group, member)) => group_became(
                    g,
                    GraphModel { lanes: g.lanes, ..h },
                    group,
                    GroupModel {
                        modulators: rack_rebased(
                            g.groups[group as int].modulators,
                            ModTargetKind::GroupMember { member, slot, param_index },
                            value,
                        ),
                        ..g.groups[group as int]
                    },
                ),
            }
        }),
{
    let h = graph_after(g, GraphCommand::SetParameter { inst, slot, param_index, value }, timing);
    if inst < g.lanes.len() {
        let l = g.lanes[inst as int];
        let centred = LaneModel {
            modulators: rack_rebased(
                l.modulators,
                ModTargetKind::PluginParam { slot, param_index },
                value,
            ),
            ..l
        };
        let lanes = g.lanes.update(inst as int, centred);
        if l.group is Some {
            members_unmoved(g.lanes, lanes, l.group->0, inst as int);
        }
        assert(membership(lanes, inst) == membership(g.lanes, inst));
    }
    assert(GraphModel { groups: g.groups, ..h } =~= GraphModel { lanes: h.lanes, ..g });
    assert(GraphModel { lanes: g.lanes, ..h } =~= GraphModel { groups: h.groups, ..g });
}

proof fn members_unmoved(a: Seq<LaneModel>, b: Seq<LaneModel>, group: usize, n: int)
    requires
        a.len() == b.len(),
        0 <= n <= a.len(),
        forall|i: int| 0 <= i < a.len() ==> (#[trigger] a[i]).group == b[i].group,
    ensures
        crate::graph::members_before(a, group, n) == crate::graph::members_before(b, group, n),
    decreases n,
{
    if n > 0 {
        members_unmoved(a, b, group, n - 1);
        assert(a[n - 1].group == b[n - 1].group);
    }
}

/// A parameter of a bus effect is set on that effect of that group, if there is
/// one, and the group's targets on it move around the new value; nothing else
/// changes.
pub proof fn bus_parameters_are_set_on_their_effect(
    g: GraphModel,
    group: usize,
    index: usize,
    param_index: u32,
    value: F32Bits,
    timing: PatternTiming,
)
    ensures
        ({
            let cmd = GraphCommand::SetGroupParameter { group, index, param_index, value };
            let b = g.groups[group as int];
            let e = effects_after(g, cmd, timing);
            &&& group < g.groups.len() && index < b.effects.len() ==> e == seq![
                EffectModel::SetParameter { plugin: b.effects[index as int], param_index, value },
            ]
            &&& group >= g.groups.len() || index >= b.effects.len() ==> e.len() == 0
            &&& group_became(
                g,
                graph_after(g, cmd, timing),
                group,
                GroupModel {
                    modulators: rack_rebased(
                        b.modulators,
                        ModTargetKind::GroupBus { effect_index: index, param_index },
                        value,
                    ),
                    ..b
                },
            )
        }),
{
}

// ---------------------------------------------------------------------------
// Lanes and groups
// ---------------------------------------------------------------------------

/// A new lane comes last. It has its range, full volume and nothing else: no
/// plugins, modulators, group or transposition, and a looping player without a
/// pattern, four beats long at 120 beats a minute and 48000 samples a second,
/// that knows its place.
pub proof fn new_lanes_are_empty(g: GraphModel, range: Option<(u8, u8)>, timing: PatternTiming)
    requires
        g.lanes.len() < usize::MAX,
    ensures
        ({
            let h = graph_after(g, GraphCommand::AddInstrument { range }, timing);
            let l = h.lanes[g.lanes.len() as int];
            let p = l.pattern;
            &&& h == (GraphModel { lanes: g.lanes.push(l), ..g })
            &&& l.range == range
            &&& l.instrument is None && l.inst_outputs == 0 && l.remapper is None
            &&& l.volume.bits == 0x3f80_0000
            &&& l.effects.len() == 0 && l.mix_values.len() == 0 && l.modulators.len() == 0
            &&& l.transpose == 0 && l.group is None
            &&& p.inst_index == g.lanes.len() && p.notifies == g.notifies
            &&& p.events.len() == 0 && p.length_samples == 0 && p.base_note is None
            &&& !p.enabled && !p.recording && !p.counting_in && p.looping && !p.in_key
            &&& p.length_beats.bits == 0x4080_0000 && p.bpm.bits == 0x42f0_0000
            &&& p.sample_rate.bits == 0x473b_8000
            &&& p.trigger_note is None && p.held_notes.len() == 0 && p.active_voices.len() == 0
            &&& effects_after(g, GraphCommand::AddInstrument { range }, timing).len() == 0
        }),
{
}

/// A removed lane hands back its instrument and then its effects. The lanes
/// behind it move up and learn their place; its group's targets on it are gone,
/// and other groups are left.
pub proof fn removed_lanes_hand_back_their_plugins(
    g: GraphModel,
    inst: usize,
    timing: PatternTiming,
    i: int,
    k: int,
)
    requires
        inst < g.lanes.len(),
        g.lanes.len() <= usize::MAX,
    ensures
        ({
            let cmd = GraphCommand::RemoveInstrument { inst };
            let h = graph_after(g, cmd, timing);
            let e = effects_after(g, cmd, timing);
            let l = g.lanes[inst as int];
            let first = if l.instrument is Some {
                1int
            } else {
                0
            };
            let from = g.lanes[if i < inst {
                i
            } else {
                i + 1
            }];
            &&& e.len() == first + l.effects.len()
            &&& l.instrument is Some ==> e[0] == (EffectModel::Return { plugin: l.instrument->0 })
            &&& 0 <= k < l.effects.len() ==> e[first + k] == (EffectModel::Return {
                plugin: l.effects[k],
            })
            &&& h.lanes.len() == g.lanes.len() - 1
            &&& 0 <= i < h.lanes.len() ==> h.lanes[i] == (LaneModel {
                pattern: PlayerModel { inst_index: i as usize, ..from.pattern },
                ..from
            })
            &&& h.groups.len() == g.groups.len()
            &&& h.num_channels == g.num_channels && h.notifies == g.notifies
            &&& 0 <= k < g.groups.len() && l.group != Some(k as usize) ==> h.groups[k]
                == g.groups[k]
            &&& l.group is Some && l.group->0 < g.groups.len() ==> {
                let b = g.groups[l.group->0 as int];
                h.groups[l.group->0 as int] == (GroupModel {
                    modulators: rack_after(
                        b.modulators,
                        RackEdit::MemberRemoved { removed: (membership(g.lanes, inst)->0).1 },
                    ),
                    ..b
                })
            }
        }),
{
}

/// A new group comes last: full volume, centred, without effects or modulators. A
/// removed group hands back its effects; its members are then in no group, and
/// the members of later groups stay in theirs.
pub proof fn groups_come_and_go(
    g: GraphModel,
    group: usize,
    timing: PatternTiming,
    i: int,
    k: int,
)
    ensures
        ({
            let h = graph_after(g, GraphCommand::AddGroup, timing);
            let b = h.groups[g.groups.len() as int];
            &&& h == (GraphModel { groups: g.groups.push(b), ..g })
            &&& b.effects.len() == 0 && b.mix_values.len() == 0 && b.modulators.len() == 0
            &&& b.volume.bits == 0x3f80_0000 && b.pan.bits == 0
        }),
        ({
            let cmd = GraphCommand::RemoveGroup { group };
            let h = graph_after(g, cmd, timing);
            let e = effects_after(g, cmd, timing);
            &&& group >= g.groups.len() ==> h == g && e.len() == 0
            &&& group < g.groups.len() ==> {
                let b = g.groups[group as int];
                &&& e.len() == b.effects.len()
                &&& 0 <= k < e.len() ==> e[k] == (EffectModel::Return { plugin: b.effects[k] })
                &&& taken_out(g.groups, h.groups, group as int)
                &&& h.num_channels == g.num_channels && h.notifies == g.notifies
                &&& h.lanes.len() == g.lanes.len()
                &&& 0 <= i < g.lanes.len() ==> {
                    let (l, m) = (g.lanes[i], h.lanes[i]);
                    &&& m == (LaneModel { group: m.group, ..l })
                    &&& l.group is None || l.group == Some(group) ==> m.group is None
                    &&& l.group is Some && l.group->0 != group && l.group->0 < g.groups.len() ==> {
                        &&& m.group is Some
                        &&& h.groups[m.group->0 as int] == g.groups[l.group->0 as int]
                    }
                }
            }
        }),
{
}

/// A lane joins the group that it is told to, or leaves its group for none.
/// Nothing else of the lanes changes, and a lane or group that is not there
/// changes nothing. The targets of a group that it leaves lose it, those of a
/// group that it joins make room for it, and other groups are left.
pub proof fn lanes_join_and_leave(
    g: GraphModel,
    inst: usize,
    group: Option<usize>,
    timing: PatternTiming,
    k: usize,
)
    requires
        crate::graph::graph_valid(g),
    ensures
        ({
            let h = graph_after(g, GraphCommand::SetLaneGroup { inst, group }, timing);
            let l = g.lanes[inst as int];
            let there = inst < g.lanes.len() && (group matches Some(x) ==> x < g.groups.len());
            &&& !there ==> h == g
            &&& there ==> {
                &&& h.lanes == g.lanes.update(inst as int, LaneModel { group, ..l })
                &&& h.groups.len() == g.groups.len()
                &&& h.num_channels == g.num_channels && h.notifies == g.notifies
                &&& group == l.group ==> h.groups == g.groups
                &&& 0 <= k < g.groups.len() ==> {
                    let (b, c) = (g.groups[k as int], h.groups[k as int]);
                    &&& group == l.group || (l.group != Some(k) && group != Some(k)) ==> c == b
                    &&& group != l.group && l.group == Some(k) ==> c == (GroupModel {
                        modulators: rack_after(
                            b.modulators,
                            RackEdit::MemberRemoved { removed: (membership(g.lanes, inst)->0).1 },
                        ),
                        ..b
                    })
                    &&& group != l.group && group == Some(k) ==> c == (GroupModel {
                        modulators: rack_after(
                            b.modulators,
                            RackEdit::MemberInserted {
                                inserted: (membership(h.lanes, inst)->0).1,
                            },
                        ),
                        ..b
                    })
                }
            }
        }),
{
    let l = g.lanes[inst as int];
    if inst < g.lanes.len() {
        assert(l.group is Some ==> l.group->0 < g.groups.len());
    }
}

// ---------------------------------------------------------------------------
// Modulators
// ---------------------------------------------------------------------------

/// What a command says to a lane's rack.
pub open spec fn said_to_lane(cmd: GraphCommand) -> Option<(usize, RackCommand)> {
    match cmd {
        GraphCommand::InsertModulator { inst, index, source } => Some(
            (inst, RackCommand::Insert { index, source }),
        ),
        GraphCommand::RemoveModulator { inst, index } => Some((inst, RackCommand::Remove { index })),
        GraphCommand::SetModulatorRate { inst, mod_index, rate } => Some(
            (inst, RackCommand::SetRate { mod_index, rate }),
        ),
        GraphCommand::SetModulatorWaveform { inst, mod_index, waveform } => Some(
            (inst, RackCommand::SetWaveform { mod_index, waveform }),
        ),
        GraphCommand::SetModulatorSource { inst, mod_index, source } => Some(
            (inst, RackCommand::SetSource { mod_index, source }),
        ),
        GraphCommand::SetModulatorEnvelopeParam {
            inst,
            mod_index,
            attack,
            decay,
            sustain,
            release,
        } => Some((inst, RackCommand::SetEnvelope { mod_index, attack, decay, sustain, release })),
        GraphCommand::AddModTarget { inst, mod_index, target } => Some(
            (inst, RackCommand::AddTarget { mod_index, target }),
        ),
        GraphCommand::RemoveModTarget { inst, mod_index, target_index } => Some(
            (inst, RackCommand::RemoveTarget { mod_index, target_index }),
        ),
        GraphCommand::SetModTargetDepth { inst, mod_index, target_index, depth } => Some(
            (inst, RackCommand::SetDepth { mod_index, target_index, depth }),
        ),
        _ => None,
    }
}

/// What a command says to a group's rack.
pub open spec fn said_to_group(cmd: GraphCommand) -> Option<(usize, RackCommand)> {
    match cmd {
        GraphCommand::InsertGroupModulator { group, index, source } => Some(
            (group, RackCommand::Insert { index, source }),
        ),
        GraphCommand::RemoveGroupModulator { group, index } => Some(
            (group, RackCommand::Remove { index }),
        ),
        GraphCommand::SetGroupModulatorRate { group, mod_index, rate } => Some(
            (group, RackCommand::SetRate { mod_index, rate }),
        ),
        GraphCommand::SetGroupModulatorWaveform { group, mod_index, waveform } => Some(
            (group, RackCommand::SetWaveform { mod_index, waveform }),
        ),
        GraphCommand::SetGroupModulatorSource { group, mod_index, source } => Some(
            (group, RackCommand::SetSource { mod_index, source }),
        ),
        GraphCommand::SetGroupModulatorEnvelopeParam {
            group,
            mod_index,
            attack,
            decay,
            sustain,
            release,
        } => Some((group, RackCommand::SetEnvelope { mod_index, attack, decay, sustain, release })),
        GraphCommand::AddGroupModTarget { group, mod_index, target } => Some(
            (group, RackCommand::AddTarget { mod_index, target }),
        ),
        GraphCommand::RemoveGroupModTarget { group, mod_index, target_index } => Some(
            (group, RackCommand::RemoveTarget { mod_index, target_index }),
        ),
        GraphCommand::SetGroupModTargetDepth { group, mod_index, target_index, depth } => Some(
            (group, RackCommand::SetDepth { mod_index, target_index, depth }),
        ),
        _ => None,
    }
}

/// A command on a group's modulators is carried out on the rack of that group,
/// at the rate of the graph, and changes nothing else.
pub proof fn group_racks_are_commanded(g: GraphModel, cmd: GraphCommand, timing: PatternTiming)
    requires
        said_to_group(cmd) is Some,
    ensures
        ({
            let (group, said) = said_to_group(cmd)->0;
            let b = g.groups[group as int];
            &&& effects_after(g, cmd, timing).len() == 0
            &&& group_became(
                g,
                graph_after(g, cmd, timing),
                group,
                GroupModel {
                    modulators: rack_commanded(
                        b.modulators,
                        said,
                        crate::graph::graph_rate(g),
                    ),
                    ..b
                },
            )
        }),
{
}

/// The new value that a command on a rack gives to a field of one of its
/// modulators.
pub open spec fn field_given(cmd: RackCommand, mod_index: usize, field: CrossModField) -> Option<
    F32Bits,
> {
    match (cmd, field) {
        (RackCommand::SetRate { mod_index: m, rate }, CrossModField::Rate) if m == mod_index => {
            Some(rate)
        },
        (RackCommand::SetEnvelope { mod_index: m, attack, .. }, CrossModField::Attack) if m
            == mod_index => Some(attack),
        (RackCommand::SetEnvelope { mod_index: m, decay, .. }, CrossModField::Decay) if m
            == mod_index => Some(decay),
        (RackCommand::SetEnvelope { mod_index: m, sustain, .. }, CrossModField::Sustain) if m
            == mod_index => Some(sustain),
        (RackCommand::SetEnvelope { mod_index: m, release, .. }, CrossModField::Release) if m
            == mod_index => Some(release),
        (RackCommand::SetDepth { mod_index: m, target_index, depth }, CrossModField::Depth(t)) if m
            == mod_index && t == target_index => Some(depth),
        _ => None,
    }
}

/// A command on a lane's modulators is carried out on the rack of that lane, at
/// the lane's rate. Where the lane is in a group, the group's targets on the
/// member's modulators follow a removal, and those on a field that got a new
/// value move around it. Nothing else changes.
pub proof fn lane_racks_are_commanded(
    g: GraphModel,
    cmd: GraphCommand,
    timing: PatternTiming,
    k: usize,
    i: int,
    j: int,
)
    requires
        said_to_lane(cmd) is Some,
    ensures
        ({
            let (inst, said) = said_to_lane(cmd)->0;
            let h = graph_after(g, cmd, timing);
            let l = g.lanes[inst as int];
            let rate = match l.instrument {
                Some(p) => p.sample_rate,
                None => F32Bits { bits: 0x473b_8000 },
            };
            &&& effects_after(g, cmd, timing).len() == 0
            &&& h.num_channels == g.num_channels && h.notifies == g.notifies
            &&& inst >= g.lanes.len() ==> h =~= g
            &&& inst < g.lanes.len() ==> h.lanes == g.lanes.update(
                inst as int,
                LaneModel { modulators: rack_commanded(l.modulators, said, rate), ..l },
            )
            &&& h.groups.len() == g.groups.len()
            &&& 0 <= k < g.groups.len() ==> {
                let (b, c) = (g.groups[k as int], h.groups[k as int]);
                &&& c == (GroupModel { modulators: c.modulators, ..b })
                &&& inst < g.lanes.len() && l.group != Some(k) ==> c == b
                &&& inst < g.lanes.len() && l.group == Some(k) ==> {
                    let member = (membership(g.lanes, inst)->0).1;
                    &&& c.modulators.len() == b.modulators.len()
                    &&& said matches RackCommand::Remove { index } ==> c.modulators == rack_after(
                        b.modulators,
                        RackEdit::MemberModulatorRemoved { member, removed: index },
                    )
                    &&& said !is Remove && 0 <= i < b.modulators.len() ==> {
                        let (m, n) = (b.modulators[i], c.modulators[i]);
                        &&& n.source == m.source && n.sample_rate == m.sample_rate
                        &&& n.last_output == m.last_output
                        &&& n.targets.len() == m.targets.len()
                        &&& 0 <= j < m.targets.len() ==> {
                            let (t, u) = (m.targets[j], n.targets[j]);
                            &&& u.kind == t.kind && u.depth == t.depth
                            &&& u.param_min == t.param_min && u.param_max == t.param_max
                            &&& u.base_value == (match t.kind {
                                ModTargetKind::GroupMemberMod {
                                    member: x,
                                    mod_index,
                                    field,
                                } => if x == member && field_given(said, mod_index, field) is Some {
                                    field_given(said, mod_index, field)->0
                                } else {
                                    t.base_value
                                },
                                _ => t.base_value,
                            })
                        }
                    }
                }
            }
        }),
{
    let (inst, said) = said_to_lane(cmd)->0;
    if inst < g.lanes.len() {
        let l = g.lanes[inst as int];
        let rate = crate::lane::lane_sample_rate(l);
        let lanes = g.lanes.update(
            inst as int,
            LaneModel { modulators: rack_commanded(l.modulators, said, rate), ..l },
        );
        if l.group is Some {
            members_unmoved(g.lanes, lanes, l.group->0, inst as int);
        }
        assert(membership(lanes, inst) == membership(g.lanes, inst));
    }
}

// ---------------------------------------------------------------------------
// Patterns
// ---------------------------------------------------------------------------

/// A pattern that is put in place brings its events, length, base note and mode,
/// and plays if it has events. Clearing drops all of it and silences the player;
/// tempo, length in beats and looping stay.
pub proof fn patterns_are_put_in_place(
    g: GraphModel,
    inst: usize,
    pattern: crate::pattern::Pattern,
    base_note: Option<u8>,
    in_key: bool,
    timing: PatternTiming,
)
    ensures
        ({
            let l = g.lanes[inst as int];
            let p = l.pattern;
            &&& lane_became(
                g,
                graph_after(
                    g,
                    GraphCommand::SetPattern { inst, pattern, base_note, in_key },
                    timing,
                ),
                inst,
                LaneModel {
                    pattern: PlayerModel {
                        events: pattern.events@,
                        length_samples: pattern.length_samples,
                        base_note,
                        in_key,
                        enabled: pattern.events@.len() != 0,
                        ..p
                    },
                    ..l
                },
            )
            &&& lane_became(
                g,
                graph_after(g, GraphCommand::ClearPattern { inst }, timing),
                inst,
                LaneModel {
                    pattern: PlayerModel {
                        events: Seq::empty(),
                        length_samples: 0,
                        base_note: None,
                        enabled: false,
                        in_key: false,
                        recording: false,
                        counting_in: false,
                        trigger_note: None,
                        held_notes: Seq::empty(),
                        active_voices: Seq::empty(),
                        click_remaining: 0,
                        ..p
                    },
                    ..l
                },
            )
        }),
{
}

/// Swapping two lanes' patterns exchanges events, lengths, base note, mode and
/// whether they play, and puts both players at rest; all else of the lanes is
/// left. A lane that is not there swaps nothing.
pub proof fn patterns_change_places(
    g: GraphModel,
    a: usize,
    b: usize,
    timing: PatternTiming,
    i: int,
)
    ensures
        ({
            let cmd = GraphCommand::SwapPatterns { inst_a: a, inst_b: b };
            let h = graph_after(g, cmd, timing);
            let from = if i == a {
                g.lanes[b as int].pattern
            } else {
                g.lanes[a as int].pattern
            };
            &&& h.groups == g.groups
            &&& h.lanes.len() == g.lanes.len()
            &&& h.num_channels == g.num_channels && h.notifies == g.notifies
            &&& a >= g.lanes.len() || b >= g.lanes.len() ==> h == g
            &&& a < g.lanes.len() && b < g.lanes.len() && 0 <= i < g.lanes.len() ==> {
                &&& i != a && i != b ==> h.lanes[i] == g.lanes[i]
                &&& i == a || i == b ==> h.lanes[i] == (LaneModel {
                    pattern: PlayerModel {
                        events: from.events,
                        length_samples: from.length_samples,
                        base_note: from.base_note,
                        enabled: from.enabled,
                        length_beats: from.length_beats,
                        in_key: from.in_key,
                        trigger_note: None,
                        held_notes: Seq::empty(),
                        active_voices: Seq::empty(),
                        ..g.lanes[i].pattern
                    },
                    ..g.lanes[i]
                })
            }
        }),
{
}

/// Starting a recording starts its count-in from nothing: no notes, no base note,
/// at the beginning and without a click, at the lane's beat length. Stopping the
/// count-in ends it; stopping a recording closes it and reports it, if anybody
/// listens.
pub proof fn recordings_start_and_stop(g: GraphModel, inst: usize, timing: PatternTiming)
    ensures
        ({
            let start = GraphCommand::SetPatternRecording { inst, recording: true };
            let stop = GraphCommand::SetPatternRecording { inst, recording: false };
            let l = g.lanes[inst as int];
            let p = l.pattern;
            let e = effects_after(g, stop, timing);
            &&& effects_after(g, start, timing).len() == 0
            &&& lane_became(
                g,
                graph_after(g, start, timing),
                inst,
                LaneModel {
                    pattern: PlayerModel {
                        inst_index: inst,
                        recording_events: Seq::empty(),
                        base_note: None,
                        record_pos: 0,
                        metronome_pos: 0,
                        click_remaining: 0,
                        click_phase: F32Bits { bits: 0 },
                        beat_length_samples: timing.beat_length,
                        counting_in: true,
                        recording: false,
                        ..p
                    },
                    ..l
                },
            )
            &&& !p.recording ==> lane_became(
                g,
                graph_after(g, stop, timing),
                inst,
                LaneModel { pattern: PlayerModel { counting_in: false, ..p }, ..l },
            )
            &&& inst >= g.lanes.len() || !p.recording || !p.notifies ==> e.len() == 0
            &&& inst < g.lanes.len() && p.recording ==> {
                let h = graph_after(g, stop, timing);
                let q = h.lanes[inst as int].pattern;
                &&& lane_became(g, h, inst, LaneModel { pattern: q, ..l })
                &&& p.notifies ==> {
                    &&& e.len() == 1
                    &&& e[0] is Notify
                    &&& reports(e[0]->notification, q)
                }
            }
        }),
{
}

/// A report says what a player holds.
pub open spec fn reports(n: NotificationModel, p: PlayerModel) -> bool {
    &&& n.inst == p.inst_index
    &&& n.base_note == p.base_note
    &&& n.length_beats == p.length_beats
    &&& n.looping == p.looping
    &&& n.enabled == p.enabled
    &&& n.events.len() == p.events.len()
    &&& forall|i: int|
        0 <= i < p.events.len() ==> #[trigger] n.events[i] == (
            p.events[i].frame,
            p.events[i].status,
            p.events[i].note,
            p.events[i].velocity,
        )
}

} // verus!
