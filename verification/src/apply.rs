//! Carrying out commands on the audio graph.

use vstd::prelude::*;

use crate::bus::{fresh_group, Group, GroupModel};
use crate::command::{
    all_returned, bus_effect_inserted, bus_effect_moved, bus_effect_removed, command_fits,
    effect_inserted, effect_list, effect_moved, effect_removed, effects_after, graph_after,
    group_after_remove, group_rack_commanded, group_removed, group_set, instrument_cleared,
    instrument_taken, lane_added, lane_grouped, lane_rack_commanded, lane_set, lanes_reindexed,
    member_mirrored, moved, param_centred, returned, with_group, with_lane, EffectModel,
    GraphCommand, GraphEffect, GroupSetting, LaneSetting, PatternTiming,
};
use crate::graph::{
    graph_valid, lane_list, lane_member_ordinal, members_before, AudioGraph, GraphModel,
};
use crate::graph_laws::commands_keep_graph_valid;
use crate::lane::{lane_sample_rate, remapper_view, InstrumentLane, LaneModel, PluginHandle};
use crate::modulation::{
    fixup_group_bus_after_remove, fixup_group_member_after_remove,
    fixup_group_member_mod_after_remove, fixup_slots_after_remove, rack, rack_after,
    rack_edit_fits, rack_rebased, rebase, remap_group_bus_after_reorder,
    remap_slots_after_reorder, retarget_fits, shift_group_member_after_insert,
    shift_slots_after_insert, update_group_bus_base, update_group_member_base,
    update_group_member_mod_base, CrossModField, ModTargetKind, Modulator, RackEdit,
};
use crate::pattern::{
    pattern_cleared, pattern_set, pattern_taken, recording_started, recording_stopped,
    swap_patterns, Pattern, PatternPlayer, PlayerModel,
};
use crate::rack::{clip, command_rack, rack_commanded, RackCommand};
use crate::remap::NoteRemapper;
use crate::scalar::{F32Bits, F64Bits};

verus! {

fn clip_index(index: usize, len: usize) -> (at: usize)
    ensures
        at == clip(index, len as nat),
{
    if index < len {
        index
    } else {
        len
    }
}

fn move_element<A: Copy>(v: &mut Vec<A>, from: usize, to: usize)
    requires
        from < old(v).len(),
        to < old(v).len(),
    ensures
        final(v)@ == moved(old(v)@, from, to),
{
    let x: A = v.remove(from);
    v.insert(to, x);
}

fn return_all(plugins: &Vec<PluginHandle>, effects: &mut Vec<GraphEffect>)
    ensures
        effect_list(final(effects)@) == effect_list(old(effects)@) + all_returned(plugins@),
{
    let ghost before = effect_list(effects@);
    let mut i: usize = 0;
    assert(effect_list(effects@) =~= before + all_returned(plugins@).take(0));
    while i < plugins.len()
        invariant
            i <= plugins.len(),
            effect_list(effects@) == before + all_returned(plugins@).take(i as int),
        decreases plugins.len() - i,
    {
        let ghost done = effects@;
        effects.push(GraphEffect::Return { plugin: plugins[i] });
        assert(effect_list(effects@) =~= effect_list(done).push(
            EffectModel::Return { plugin: plugins@[i as int] },
        ));
        assert(all_returned(plugins@).take(i + 1) =~= all_returned(plugins@).take(i as int).push(
            EffectModel::Return { plugin: plugins@[i as int] },
        ));
        assert(effect_list(effects@) =~= before + all_returned(plugins@).take(i + 1));
        i += 1;
    }
    assert(all_returned(plugins@).take(plugins@.len() as int) =~= all_returned(plugins@));
}

fn one_effect(effect: GraphEffect) -> (effects: Vec<GraphEffect>)
    ensures
        effect_list(effects@) == seq![effect@],
{
    let mut effects: Vec<GraphEffect> = Vec::new();
    effects.push(effect);
    assert(effect_list(effects@) =~= seq![effect@]);
    effects
}

fn no_effects() -> (effects: Vec<GraphEffect>)
    ensures
        effect_list(effects@) == Seq::<EffectModel>::empty(),
{
    let effects: Vec<GraphEffect> = Vec::new();
    assert(effect_list(effects@) =~= Seq::empty());
    effects
}

fn return_one(plugin: Option<PluginHandle>) -> (effects: Vec<GraphEffect>)
    ensures
        effect_list(effects@) == returned(plugin),
{
    match plugin {
        Some(plugin) => one_effect(GraphEffect::Return { plugin }),
        None => no_effects(),
    }
}

fn mirror_to_group(mods: &mut Vec<Modulator>, ordinal: usize, cmd: RackCommand)
    ensures
        rack(final(mods)@) == member_mirrored(rack(old(mods)@), ordinal, cmd),
{
    match cmd {
        RackCommand::Remove { index } => {
            fixup_group_member_mod_after_remove(mods, ordinal, index);
        },
        RackCommand::SetRate { mod_index, rate } => {
            update_group_member_mod_base(mods, ordinal, mod_index, CrossModField::Rate, rate);
        },
        RackCommand::SetEnvelope { mod_index, attack, decay, sustain, release } => {
            update_group_member_mod_base(mods, ordinal, mod_index, CrossModField::Attack, attack);
            update_group_member_mod_base(mods, ordinal, mod_index, CrossModField::Decay, decay);
            update_group_member_mod_base(
                mods,
                ordinal,
                mod_index,
                CrossModField::Sustain,
                sustain,
            );
            update_group_member_mod_base(
                mods,
                ordinal,
                mod_index,
                CrossModField::Release,
                release,
            );
        },
        RackCommand::SetDepth { mod_index, target_index, depth } => {
            update_group_member_mod_base(
                mods,
                ordinal,
                mod_index,
                CrossModField::Depth(target_index),
                depth,
            );
        },
        _ => {},
    }
}

impl InstrumentLane {
    /// Change one setting of the lane.
    pub fn set(&mut self, setting: LaneSetting)
        ensures
            final(self)@ == lane_set(old(self)@, setting),
    {
        match setting {
            LaneSetting::Mix { slot, mix } => {
                if slot > 0 && slot <= self.mix_values.len() {
                    self.mix_values.set(slot - 1, mix);
                }
            },
            LaneSetting::Volume { value } => {
                self.volume = value;
            },
            LaneSetting::Range { range } => {
                self.range = range;
            },
            LaneSetting::Transpose { semitones } => {
                self.transpose = semitones;
            },
            LaneSetting::PatternEnabled { enabled } => {
                self.pattern.enabled = enabled;
            },
            LaneSetting::PatternLength { beats } => {
                self.pattern.length_beats = beats;
            },
            LaneSetting::PatternLooping { looping } => {
                self.pattern.looping = looping;
            },
            LaneSetting::PatternInKey { in_key } => {
                self.pattern.in_key = in_key;
            },
        }
    }

    fn insert_effect(&mut self, index: usize, effect: PluginHandle, mix: F64Bits)
        requires
            old(self)@.effects.len() == old(self)@.mix_values.len(),
            rack_edit_fits(
                old(self)@.modulators,
                RackEdit::EffectInserted { at: clip(index, old(self)@.effects.len()) as usize },
            ),
        ensures
            final(self)@ == effect_inserted(old(self)@, index, effect, mix),
    {
        let at: usize = clip_index(index, self.effects.len());
        self.effects.insert(at, effect);
        self.mix_values.insert(at, mix);
        shift_slots_after_insert(&mut self.modulators, at);
    }

    fn remove_effect(&mut self, index: usize) -> (plugin: PluginHandle)
        requires
            old(self)@.effects.len() == old(self)@.mix_values.len(),
            index < old(self)@.effects.len(),
        ensures
            final(self)@ == effect_removed(old(self)@, index),
            plugin == old(self)@.effects[index as int],
    {
        assert(index < self.effects.len());
        let plugin: PluginHandle = self.effects.remove(index);
        self.mix_values.remove(index);
        fixup_slots_after_remove(&mut self.modulators, index);
        plugin
    }

    fn reorder_effect(&mut self, from: usize, to: usize)
        requires
            old(self)@.effects.len() == old(self)@.mix_values.len(),
        ensures
            final(self)@ == effect_moved(old(self)@, from, to),
    {
        if from < self.effects.len() && to < self.effects.len() && from != to {
            move_element(&mut self.effects, from, to);
            move_element(&mut self.mix_values, from, to);
            remap_slots_after_reorder(&mut self.modulators, from, to);
        }
    }

    fn clear_instrument(&mut self) -> (plugin: Option<PluginHandle>)
        ensures
            final(self)@ == instrument_cleared(old(self)@),
            plugin == old(self)@.instrument,
    {
        let plugin: Option<PluginHandle> = self.instrument;
        self.instrument = None;
        self.inst_outputs = 0;
        self.remapper = None;
        self.modulators.clear();
        assert(self@.modulators =~= Seq::empty());
        plugin
    }
}

impl Group {
    /// Change one setting of the group.
    pub fn set(&mut self, setting: GroupSetting)
        ensures
            final(self)@ == group_set(old(self)@, setting),
    {
        match setting {
            GroupSetting::Volume { value } => {
                self.volume = value;
            },
            GroupSetting::Pan { value } => {
                self.pan = value.clamp_unit();
            },
            GroupSetting::Mix { index, mix } => {
                if index < self.mix_values.len() {
                    self.mix_values.set(index, mix);
                }
            },
        }
    }

    fn insert_effect(&mut self, index: usize, effect: PluginHandle, mix: F64Bits)
        requires
            old(self)@.effects.len() == old(self)@.mix_values.len(),
        ensures
            final(self)@ == bus_effect_inserted(old(self)@, index, effect, mix),
    {
        let at: usize = clip_index(index, self.effects.len());
        self.effects.insert(at, effect);
        self.mix_values.insert(at, mix);
    }

    fn remove_effect(&mut self, index: usize) -> (plugin: PluginHandle)
        requires
            old(self)@.effects.len() == old(self)@.mix_values.len(),
            index < old(self)@.effects.len(),
        ensures
            final(self)@ == bus_effect_removed(old(self)@, index),
            plugin == old(self)@.effects[index as int],
    {
        self.mix_values.remove(index);
        let plugin: PluginHandle = self.effects.remove(index);
        fixup_group_bus_after_remove(&mut self.modulators, index);
        plugin
    }

    fn reorder_effect(&mut self, from: usize, to: usize)
        requires
            old(self)@.effects.len() == old(self)@.mix_values.len(),
        ensures
            final(self)@ == bus_effect_moved(old(self)@, from, to),
    {
        if from < self.effects.len() && to < self.effects.len() && from != to {
            move_element(&mut self.effects, from, to);
            move_element(&mut self.mix_values, from, to);
            remap_group_bus_after_reorder(&mut self.modulators, from, to);
        }
    }
}

impl AudioGraph {
    /// Reading a lane's model off the graph's.
    proof fn lane_at(&self, inst: usize)
        requires
            inst < self.instruments@.len(),
        ensures
            self@.lanes.len() == self.instruments@.len(),
            self@.lanes[inst as int] == self.instruments@[inst as int]@,
    {
    }

    fn set_lane(&mut self, inst: usize, setting: LaneSetting)
        ensures
            final(self)@ == with_lane(
                old(self)@,
                inst,
                |l: LaneModel| lane_set(l, setting),
            ),
    {
        let ghost before = self@;
        if inst < self.instruments.len() {
            self.instruments[inst].set(setting);
            assert(self@.lanes =~= before.lanes.update(
                inst as int,
                lane_set(before.lanes[inst as int], setting),
            ));
        }
    }

    fn set_group(&mut self, group: usize, setting: GroupSetting)
        ensures
            final(self)@ == with_group(
                old(self)@,
                group,
                |b: GroupModel| group_set(b, setting),
            ),
    {
        let ghost before = self@;
        if group < self.groups.len() {
            self.groups[group].set(setting);
            assert(self@.groups =~= before.groups.update(
                group as int,
                group_set(before.groups[group as int], setting),
            ));
        }
    }

    fn command_lane_rack(&mut self, inst: usize, cmd: RackCommand)
        ensures
            final(self)@ == lane_rack_commanded(old(self)@, inst, cmd),
    {
        let ghost before = self@;
        if inst < self.instruments.len() {
            let rate: F32Bits = self.instruments[inst].sample_rate();
            command_rack(&mut self.instruments[inst].modulators, cmd, rate);
            let ghost l = before.lanes[inst as int];
            assert(self@.lanes =~= before.lanes.update(
                inst as int,
                LaneModel {
                    modulators: rack_commanded(l.modulators, cmd, lane_sample_rate(l)),
                    ..l
                },
            ));
        }
        let ghost mid = self@;
        if let Some((group, ordinal)) = lane_member_ordinal(&self.instruments, inst) {
            if group < self.groups.len() {
                mirror_to_group(&mut self.groups[group].modulators, ordinal, cmd);
                let ghost b = mid.groups[group as int];
                assert(self@.groups =~= mid.groups.update(
                    group as int,
                    GroupModel {
                        modulators: member_mirrored(b.modulators, ordinal, cmd),
                        ..b
                    },
                ));
            }
        }
    }

    fn command_group_rack(&mut self, group: usize, cmd: RackCommand)
        ensures
            final(self)@ == group_rack_commanded(old(self)@, group, cmd),
    {
        let ghost before = self@;
        let rate: F32Bits = self.graph_sample_rate();
        if group < self.groups.len() {
            command_rack(&mut self.groups[group].modulators, cmd, rate);
            let ghost b = before.groups[group as int];
            assert(self@.groups =~= before.groups.update(
                group as int,
                GroupModel { modulators: rack_commanded(b.modulators, cmd, rate), ..b },
            ));
        }
    }

    fn swap_instrument(
        &mut self,
        inst: usize,
        instrument: PluginHandle,
        inst_outputs: usize,
        remapper: Option<NoteRemapper>,
    ) -> (effects: Vec<GraphEffect>)
        ensures
            ({
                let g = old(self)@;
                &&& final(self)@ == with_lane(
                    g,
                    inst,
                    |l: LaneModel|
                        LaneModel {
                            instrument: Some(instrument),
                            inst_outputs,
                            remapper: remapper_view(remapper),
                            ..l
                        },
                )
                &&& effect_list(effects@) == (if inst < g.lanes.len() {
                    returned(g.lanes[inst as int].instrument)
                } else {
                    seq![EffectModel::Discard { plugin: instrument }]
                })
            }),
    {
        let ghost before = self@;
        if inst < self.instruments.len() {
            let ghost table = remapper_view(remapper);
            let replaced: Option<PluginHandle> = self.instruments[inst].instrument;
            self.instruments[inst].inst_outputs = inst_outputs;
            self.instruments[inst].remapper = remapper;
            self.instruments[inst].instrument = Some(instrument);
            let ghost l = before.lanes[inst as int];
            assert(self@.lanes =~= before.lanes.update(
                inst as int,
                LaneModel {
                    instrument: Some(instrument),
                    inst_outputs,
                    remapper: table,
                    ..l
                },
            ));
            return_one(replaced)
        } else {
            one_effect(GraphEffect::Discard { plugin: instrument })
        }
    }

    fn insert_lane_effect(
        &mut self,
        inst: usize,
        index: usize,
        effect: PluginHandle,
        mix: F64Bits,
    ) -> (effects: Vec<GraphEffect>)
        requires
            graph_valid(old(self)@),
            command_fits(old(self)@, GraphCommand::InsertEffect { inst, index, effect, mix }),
        ensures
            ({
                let cmd = GraphCommand::InsertEffect { inst, index, effect, mix };
                let timing = PatternTiming { beat_length: 0, pattern_length: 0 };
                &&& final(self)@ == graph_after(old(self)@, cmd, timing)
                &&& effect_list(effects@) == effects_after(old(self)@, cmd, timing)
            }),
    {
        let ghost before = self@;
        if inst >= self.instruments.len() {
            return one_effect(GraphEffect::Discard { plugin: effect });
        }
        proof {
            self.lane_at(inst);
        }
        if effect.outputs != self.num_channels {
            return one_effect(GraphEffect::Return { plugin: effect });
        }
        assert(before.lanes[inst as int].effects.len() == before.lanes[inst as int].mix_values.len());
        self.instruments[inst].insert_effect(index, effect, mix);
        assert(self@.lanes =~= before.lanes.update(
            inst as int,
            effect_inserted(before.lanes[inst as int], index, effect, mix),
        ));
        no_effects()
    }

    fn remove_lane_effect(&mut self, inst: usize, index: usize) -> (effects: Vec<GraphEffect>)
        requires
            graph_valid(old(self)@),
        ensures
            ({
                let cmd = GraphCommand::RemoveEffect { inst, index };
                let timing = PatternTiming { beat_length: 0, pattern_length: 0 };
                &&& final(self)@ == graph_after(old(self)@, cmd, timing)
                &&& effect_list(effects@) == effects_after(old(self)@, cmd, timing)
            }),
    {
        let ghost before = self@;
        if inst < self.instruments.len() {
            proof {
                self.lane_at(inst);
            }
            let ghost l = before.lanes[inst as int];
            assert(l.effects.len() == l.mix_values.len());
            if index < self.instruments[inst].effects.len() {
                let plugin: PluginHandle = self.instruments[inst].remove_effect(index);
                assert(self@.lanes =~= before.lanes.update(
                    inst as int,
                    effect_removed(l, index),
                ));
                return one_effect(GraphEffect::Return { plugin });
            }
            assert(self@.lanes =~= before.lanes.update(inst as int, l));
        }
        no_effects()
    }

    fn reorder_lane_effect(&mut self, inst: usize, from: usize, to: usize)
        requires
            graph_valid(old(self)@),
        ensures
            final(self)@ == with_lane(
                old(self)@,
                inst,
                |l: LaneModel| effect_moved(l, from, to),
            ),
    {
        let ghost before = self@;
        if inst < self.instruments.len() {
            proof {
                self.lane_at(inst);
            }
            let ghost l = before.lanes[inst as int];
            assert(l.effects.len() == l.mix_values.len());
            self.instruments[inst].reorder_effect(from, to);
            assert(self@.lanes =~= before.lanes.update(inst as int, effect_moved(l, from, to)));
        }
    }

    fn set_parameter(&mut self, inst: usize, slot: usize, param_index: u32, value: F32Bits) -> (
    effects: Vec<GraphEffect>)
        ensures
            ({
                let cmd = GraphCommand::SetParameter { inst, slot, param_index, value };
                let timing = PatternTiming { beat_length: 0, pattern_length: 0 };
                &&& final(self)@ == graph_after(old(self)@, cmd, timing)
                &&& effect_list(effects@) == effects_after(old(self)@, cmd, timing)
            }),
    {
        let ghost before = self@;
        let mut plugin: Option<PluginHandle> = None;
        if inst < self.instruments.len() {
            proof {
                self.lane_at(inst);
            }
            let ghost l = before.lanes[inst as int];
            plugin = self.instruments[inst].plugin_at(slot);
            rebase(
                &mut self.instruments[inst].modulators,
                ModTargetKind::PluginParam { slot, param_index },
                value,
            );
            assert(self@.lanes =~= before.lanes.update(
                inst as int,
                param_centred(l, slot, param_index, value),
            ));
        }
        let ghost mid = self@;
        if let Some((group, ordinal)) = lane_member_ordinal(&self.instruments, inst) {
            if group < self.groups.len() {
                update_group_member_base(
                    &mut self.groups[group].modulators,
                    ordinal,
                    slot,
                    param_index,
                    value,
                );
                let ghost b = mid.groups[group as int];
                assert(self@.groups =~= mid.groups.update(
                    group as int,
                    GroupModel {
                        modulators: rack_rebased(
                            b.modulators,
                            ModTargetKind::GroupMember { member: ordinal, slot, param_index },
                            value,
                        ),
                        ..b
                    },
                ));
            }
        }
        match plugin {
            Some(plugin) => one_effect(
                GraphEffect::SetParameter { plugin, param_index, value },
            ),
            None => no_effects(),
        }
    }

    fn load_preset(&mut self, inst: usize, slot: usize, preset_id: String) -> (effects: Vec<
        GraphEffect,
    >)
        ensures
            ({
                let cmd = GraphCommand::LoadPreset { inst, slot, preset_id };
                let timing = PatternTiming { beat_length: 0, pattern_length: 0 };
                &&& final(self)@ == old(self)@
                &&& effect_list(effects@) == effects_after(old(self)@, cmd, timing)
            }),
    {
        if inst < self.instruments.len() {
            proof {
                self.lane_at(inst);
            }
            if let Some(plugin) = self.instruments[inst].plugin_at(slot) {
                return one_effect(GraphEffect::LoadPreset { plugin, preset_id });
            }
        }
        no_effects()
    }

    fn clear_lane_instrument(&mut self, inst: usize) -> (effects: Vec<GraphEffect>)
        ensures
            ({
                let cmd = GraphCommand::ClearInstrument { inst };
                let timing = PatternTiming { beat_length: 0, pattern_length: 0 };
                &&& final(self)@ == graph_after(old(self)@, cmd, timing)
                &&& effect_list(effects@) == effects_after(old(self)@, cmd, timing)
            }),
    {
        let ghost before = self@;
        if inst < self.instruments.len() {
            proof {
                self.lane_at(inst);
            }
            let ghost l = before.lanes[inst as int];
            let plugin: Option<PluginHandle> = self.instruments[inst].clear_instrument();
            assert(self@.lanes =~= before.lanes.update(inst as int, instrument_cleared(l)));
            return_one(plugin)
        } else {
            no_effects()
        }
    }

    fn swap_lane_instruments(&mut self, inst_a: usize, inst_b: usize)
        ensures
            final(self)@ == graph_after(
                old(self)@,
                GraphCommand::SwapInstruments { inst_a, inst_b },
                (PatternTiming { beat_length: 0, pattern_length: 0 }),
            ),
    {
        let ghost before = self@;
        if inst_a < self.instruments.len() && inst_b < self.instruments.len() {
            let ghost a = before.lanes[inst_a as int];
            let ghost b = before.lanes[inst_b as int];
            proof {
                self.lane_at(inst_a);
                self.lane_at(inst_b);
            }
            if inst_a != inst_b {
                let instrument_a: Option<PluginHandle> = self.instruments[inst_a].instrument;
                let outputs_a: usize = self.instruments[inst_a].inst_outputs;
                let remapper_a: Option<NoteRemapper> = self.instruments[inst_a].remapper.take();
                let instrument_b: Option<PluginHandle> = self.instruments[inst_b].instrument;
                let outputs_b: usize = self.instruments[inst_b].inst_outputs;
                let remapper_b: Option<NoteRemapper> = self.instruments[inst_b].remapper.take();
                self.instruments[inst_a].instrument = instrument_b;
                self.instruments[inst_a].inst_outputs = outputs_b;
                self.instruments[inst_a].remapper = remapper_b;
                self.instruments[inst_b].instrument = instrument_a;
                self.instruments[inst_b].inst_outputs = outputs_a;
                self.instruments[inst_b].remapper = remapper_a;
            }
            assert(self@.lanes =~= before.lanes.update(
                inst_a as int,
                instrument_taken(a, b),
            ).update(inst_b as int, instrument_taken(b, a)));
        }
    }

    fn add_instrument(&mut self, range: Option<(u8, u8)>)
        ensures
            final(self)@ == graph_after(
                old(self)@,
                GraphCommand::AddInstrument { range },
                (PatternTiming { beat_length: 0, pattern_length: 0 }),
            ),
    {
        let ghost before = self@;
        let mut lane = InstrumentLane::new();
        lane.range = range;
        lane.pattern.inst_index = self.instruments.len();
        lane.pattern.notifies = self.notifies;
        self.instruments.push(lane);
        assert(self@.lanes =~= before.lanes.push(
            lane_added(range, before.lanes.len() as int, before.notifies),
        ));
    }

    /// Tell every player its lane's position.
    fn reindex(&mut self)
        ensures
            final(self)@ == (GraphModel {
                lanes: lanes_reindexed(old(self)@.lanes),
                ..old(self)@
            }),
    {
        let ghost before = self.instruments@;
        let ghost old_graph = self@;
        let mut i: usize = 0;
        while i < self.instruments.len()
            invariant
                self.instruments.len() == before.len(),
                i <= self.instruments.len(),
                self@.groups == old_graph.groups,
                self@.num_channels == old_graph.num_channels,
                self@.notifies == old_graph.notifies,
                forall|k: int|
                    0 <= k < i ==> #[trigger] self.instruments@[k]@ == lanes_reindexed(
                        lane_list(before),
                    )[k],
                forall|k: int| i <= k < self.instruments.len() ==> self.instruments@[k] == before[k],
            decreases self.instruments.len() - i,
        {
            self.instruments[i].pattern.inst_index = i;
            i += 1;
        }
        assert(self@.lanes =~= lanes_reindexed(lane_list(before)));
    }

    fn remove_instrument(&mut self, inst: usize) -> (effects: Vec<GraphEffect>)
        ensures
            ({
                let cmd = GraphCommand::RemoveInstrument { inst };
                let timing = PatternTiming { beat_length: 0, pattern_length: 0 };
                &&& final(self)@ == graph_after(old(self)@, cmd, timing)
                &&& effect_list(effects@) == effects_after(old(self)@, cmd, timing)
            }),
    {
        let ghost before = self@;
        if inst >= self.instruments.len() {
            return no_effects();
        }
        proof {
            self.lane_at(inst);
        }
        let member_of = lane_member_ordinal(&self.instruments, inst);
        let removed = self.instruments.remove(inst);
        assert(removed@ == before.lanes[inst as int]);
        assert(self@.lanes =~= before.lanes.remove(inst as int));
        let mut effects = return_one(removed.instrument);
        return_all(&removed.effects, &mut effects);
        if let Some((group, ordinal)) = member_of {
            if group < self.groups.len() {
                fixup_group_member_after_remove(&mut self.groups[group].modulators, ordinal);
                let ghost b = before.groups[group as int];
                assert(self@.groups =~= before.groups.update(
                    group as int,
                    GroupModel {
                        modulators: rack_after(
                            b.modulators,
                            RackEdit::MemberRemoved { removed: ordinal },
                        ),
                        ..b
                    },
                ));
            }
        }
        self.reindex();
        effects
    }

    fn remove_group(&mut self, group: usize) -> (effects: Vec<GraphEffect>)
        ensures
            ({
                let cmd = GraphCommand::RemoveGroup { group };
                let timing = PatternTiming { beat_length: 0, pattern_length: 0 };
                &&& final(self)@ == graph_after(old(self)@, cmd, timing)
                &&& effect_list(effects@) == effects_after(old(self)@, cmd, timing)
            }),
    {
        let ghost before = self@;
        if group >= self.groups.len() {
            return no_effects();
        }
        let removed = self.groups.remove(group);
        assert(removed@ == before.groups[group as int]);
        assert(self@.groups =~= before.groups.remove(group as int));
        let mut effects = no_effects();
        return_all(&removed.effects, &mut effects);
        assert(effect_list(effects@) =~= all_returned(removed.effects@));
        let ghost lanes = self.instruments@;
        let ghost groups = self@.groups;
        let mut i: usize = 0;
        while i < self.instruments.len()
            invariant
                self.instruments.len() == lanes.len(),
                i <= self.instruments.len(),
                self@.groups == groups,
                self@.num_channels == before.num_channels,
                self@.notifies == before.notifies,
                forall|k: int|
                    0 <= k < i ==> #[trigger] self.instruments@[k]@ == (LaneModel {
                        group: group_after_remove(lanes[k]@.group, group),
                        ..lanes[k]@
                    }),
                forall|k: int| i <= k < self.instruments.len() ==> self.instruments@[k] == lanes[k],
            decreases self.instruments.len() - i,
        {
            if let Some(g) = self.instruments[i].group {
                if g == group {
                    self.instruments[i].group = None;
                } else if g > group {
                    self.instruments[i].group = Some(g - 1);
                }
            }
            i += 1;
        }
        assert(self@.lanes =~= group_removed(before, group).lanes);
        effects
    }

    fn set_lane_group(&mut self, inst: usize, group: Option<usize>)
        requires
            command_fits(old(self)@, GraphCommand::SetLaneGroup { inst, group }),
        ensures
            final(self)@ == graph_after(
                old(self)@,
                GraphCommand::SetLaneGroup { inst, group },
                (PatternTiming { beat_length: 0, pattern_length: 0 }),
            ),
    {
        let ghost before = self@;
        let valid: bool = match group {
            Some(g) => g < self.groups.len(),
            None => true,
        };
        if !valid || inst >= self.instruments.len() {
            return ;
        }
        proof {
            self.lane_at(inst);
        }
        let left = lane_member_ordinal(&self.instruments, inst);
        let same: bool = self.instruments[inst].group == group;
        self.instruments[inst].group = group;
        let ghost lanes = lane_grouped(before.lanes, inst, group);
        assert(self@.lanes =~= lanes);
        let joined = lane_member_ordinal(&self.instruments, inst);
        if same {
            return ;
        }
        if let Some((g, ordinal)) = left {
            if g < self.groups.len() {
                fixup_group_member_after_remove(&mut self.groups[g].modulators, ordinal);
                let ghost b = before.groups[g as int];
                assert(self@.groups =~= before.groups.update(
                    g as int,
                    GroupModel {
                        modulators: rack_after(
                            b.modulators,
                            RackEdit::MemberRemoved { removed: ordinal },
                        ),
                        ..b
                    },
                ));
            }
        }
        let ghost mid = self@;
        if let Some((g, ordinal)) = joined {
            if g < self.groups.len() {
                assert(mid.groups[g as int] == before.groups[g as int]);
                assert(rack(self.groups@[g as int].modulators@) == before.groups[g as int].modulators);
                shift_group_member_after_insert(&mut self.groups[g].modulators, ordinal);
                let ghost b = mid.groups[g as int];
                assert(self@.groups =~= mid.groups.update(
                    g as int,
                    GroupModel {
                        modulators: rack_after(
                            b.modulators,
                            RackEdit::MemberInserted { inserted: ordinal },
                        ),
                        ..b
                    },
                ));
            }
        }
    }

    fn insert_bus_effect(
        &mut self,
        group: usize,
        index: usize,
        effect: PluginHandle,
        mix: F64Bits,
    ) -> (effects: Vec<GraphEffect>)
        requires
            graph_valid(old(self)@),
        ensures
            ({
                let cmd = GraphCommand::InsertGroupEffect { group, index, effect, mix };
                let timing = PatternTiming { beat_length: 0, pattern_length: 0 };
                &&& final(self)@ == graph_after(old(self)@, cmd, timing)
                &&& effect_list(effects@) == effects_after(old(self)@, cmd, timing)
            }),
    {
        let ghost before = self@;
        if group >= self.groups.len() {
            return one_effect(GraphEffect::Discard { plugin: effect });
        }
        if effect.outputs != self.num_channels {
            return one_effect(GraphEffect::Return { plugin: effect });
        }
        let ghost b = before.groups[group as int];
        assert(b == self.groups@[group as int]@);
        assert(b.effects.len() == b.mix_values.len());
        self.groups[group].insert_effect(index, effect, mix);
        assert(self@.groups =~= before.groups.update(
            group as int,
            bus_effect_inserted(b, index, effect, mix),
        ));
        no_effects()
    }

    fn remove_bus_effect(&mut self, group: usize, index: usize) -> (effects: Vec<GraphEffect>)
        requires
            graph_valid(old(self)@),
        ensures
            ({
                let cmd = GraphCommand::RemoveGroupEffect { group, index };
                let timing = PatternTiming { beat_length: 0, pattern_length: 0 };
                &&& final(self)@ == graph_after(old(self)@, cmd, timing)
                &&& effect_list(effects@) == effects_after(old(self)@, cmd, timing)
            }),
    {
        let ghost before = self@;
        if group < self.groups.len() {
            let ghost b = before.groups[group as int];
            assert(b == self.groups@[group as int]@);
            assert(b.effects.len() == b.mix_values.len());
            if index < self.groups[group].effects.len() {
                let plugin: PluginHandle = self.groups[group].remove_effect(index);
                assert(self@.groups =~= before.groups.update(
                    group as int,
                    bus_effect_removed(b, index),
                ));
                return one_effect(GraphEffect::Return { plugin });
            }
            assert(self@.groups =~= before.groups.update(group as int, b));
        }
        no_effects()
    }

    fn reorder_bus_effect(&mut self, group: usize, from: usize, to: usize)
        requires
            graph_valid(old(self)@),
        ensures
            final(self)@ == with_group(
                old(self)@,
                group,
                |b: GroupModel| bus_effect_moved(b, from, to),
            ),
    {
        let ghost before = self@;
        if group < self.groups.len() {
            let ghost b = before.groups[group as int];
            assert(b == self.groups@[group as int]@);
            assert(b.effects.len() == b.mix_values.len());
            self.groups[group].reorder_effect(from, to);
            assert(self@.groups =~= before.groups.update(
                group as int,
                bus_effect_moved(b, from, to),
            ));
        }
    }

    fn set_bus_parameter(
        &mut self,
        group: usize,
        index: usize,
        param_index: u32,
        value: F32Bits,
    ) -> (effects: Vec<GraphEffect>)
        ensures
            ({
                let cmd = GraphCommand::SetGroupParameter { group, index, param_index, value };
                let timing = PatternTiming { beat_length: 0, pattern_length: 0 };
                &&& final(self)@ == graph_after(old(self)@, cmd, timing)
                &&& effect_list(effects@) == effects_after(old(self)@, cmd, timing)
            }),
    {
        let ghost before = self@;
        let mut plugin: Option<PluginHandle> = None;
        if group < self.groups.len() {
            let ghost b = before.groups[group as int];
            assert(b == self.groups@[group as int]@);
            if index < self.groups[group].effects.len() {
                plugin = Some(self.groups[group].effects[index]);
            }
            update_group_bus_base(&mut self.groups[group].modulators, index, param_index, value);
            assert(self@.groups =~= before.groups.update(
                group as int,
                GroupModel {
                    modulators: rack_rebased(
                        b.modulators,
                        ModTargetKind::GroupBus { effect_index: index, param_index },
                        value,
                    ),
                    ..b
                },
            ));
        }
        match plugin {
            Some(plugin) => one_effect(
                GraphEffect::SetParameter { plugin, param_index, value },
            ),
            None => no_effects(),
        }
    }

    fn set_pattern_recording(
        &mut self,
        inst: usize,
        recording: bool,
        timing: PatternTiming,
    ) -> (effects: Vec<GraphEffect>)
        ensures
            ({
                let cmd = GraphCommand::SetPatternRecording { inst, recording };
                &&& final(self)@ == graph_after(old(self)@, cmd, timing)
                &&& effect_list(effects@) == effects_after(old(self)@, cmd, timing)
            }),
    {
        let ghost before = self@;
        if inst >= self.instruments.len() {
            return no_effects();
        }
        proof {
            self.lane_at(inst);
        }
        let ghost l = before.lanes[inst as int];
        if recording {
            self.instruments[inst].pattern.start_recording(inst, timing.beat_length);
            assert(self@.lanes =~= before.lanes.update(
                inst as int,
                LaneModel {
                    pattern: recording_started(l.pattern, inst, timing.beat_length),
                    ..l
                },
            ));
            no_effects()
        } else {
            let report = self.instruments[inst].pattern.stop_recording(timing.pattern_length);
            assert(self@.lanes =~= before.lanes.update(
                inst as int,
                LaneModel {
                    pattern: recording_stopped(l.pattern, timing.pattern_length),
                    ..l
                },
            ));
            match report {
                Some(notification) => one_effect(GraphEffect::Notify { notification }),
                None => no_effects(),
            }
        }
    }

    fn set_pattern(&mut self, inst: usize, pattern: Pattern, base_note: Option<u8>, in_key: bool)
        ensures
            final(self)@ == graph_after(
                old(self)@,
                GraphCommand::SetPattern { inst, pattern, base_note, in_key },
                (PatternTiming { beat_length: 0, pattern_length: 0 }),
            ),
    {
        let ghost before = self@;
        if inst < self.instruments.len() {
            let ghost l = before.lanes[inst as int];
            let ghost p = pattern;
            self.instruments[inst].pattern.set_pattern(pattern, base_note, in_key);
            assert(self@.lanes =~= before.lanes.update(
                inst as int,
                LaneModel {
                    pattern: pattern_set(
                        l.pattern,
                        p.events@,
                        p.length_samples,
                        base_note,
                        in_key,
                    ),
                    ..l
                },
            ));
        }
    }

    fn clear_pattern(&mut self, inst: usize)
        ensures
            final(self)@ == graph_after(
                old(self)@,
                GraphCommand::ClearPattern { inst },
                (PatternTiming { beat_length: 0, pattern_length: 0 }),
            ),
    {
        let ghost before = self@;
        if inst < self.instruments.len() {
            let ghost l = before.lanes[inst as int];
            self.instruments[inst].pattern.clear_pattern();
            assert(self@.lanes =~= before.lanes.update(
                inst as int,
                LaneModel { pattern: pattern_cleared(l.pattern), ..l },
            ));
        }
    }

    fn swap_lane_patterns(&mut self, inst_a: usize, inst_b: usize)
        ensures
            final(self)@ == graph_after(
                old(self)@,
                GraphCommand::SwapPatterns { inst_a, inst_b },
                (PatternTiming { beat_length: 0, pattern_length: 0 }),
            ),
    {
        let ghost before = self@;
        if inst_a < self.instruments.len() && inst_b < self.instruments.len() {
            let ghost a = before.lanes[inst_a as int];
            let ghost b = before.lanes[inst_b as int];
            proof {
                self.lane_at(inst_a);
                self.lane_at(inst_b);
            }
            if inst_a == inst_b {
                self.instruments[inst_a].pattern.rest();
            } else {
                let mut player = PatternPlayer::new(F32Bits { bits: 0 });
                std::mem::swap(&mut player, &mut self.instruments[inst_a].pattern);
                swap_patterns(&mut player, &mut self.instruments[inst_b].pattern);
                std::mem::swap(&mut player, &mut self.instruments[inst_a].pattern);
            }
            assert(self@.lanes =~= before.lanes.update(
                inst_a as int,
                LaneModel { pattern: pattern_taken(a.pattern, b.pattern), ..a },
            ).update(
                inst_b as int,
                LaneModel { pattern: pattern_taken(b.pattern, a.pattern), ..b },
            ));
        }
    }

    fn set_global_bpm(&mut self, bpm: F32Bits)
        ensures
            final(self)@ == graph_after(
                old(self)@,
                GraphCommand::SetGlobalBpm { bpm },
                (PatternTiming { beat_length: 0, pattern_length: 0 }),
            ),
    {
        let ghost before = self@;
        let ghost lanes = self.instruments@;
        let mut i: usize = 0;
        while i < self.instruments.len()
            invariant
                self.instruments.len() == lanes.len(),
                i <= self.instruments.len(),
                self@.groups == before.groups,
                self@.num_channels == before.num_channels,
                self@.notifies == before.notifies,
                forall|k: int|
                    0 <= k < i ==> #[trigger] self.instruments@[k]@ == (LaneModel {
                        pattern: PlayerModel { bpm, ..lanes[k]@.pattern },
                        ..lanes[k]@
                    }),
                forall|k: int| i <= k < self.instruments.len() ==> self.instruments@[k] == lanes[k],
            decreases self.instruments.len() - i,
        {
            self.instruments[i].pattern.bpm = bpm;
            i += 1;
        }
        let ghost after = graph_after(
            before,
            GraphCommand::SetGlobalBpm { bpm },
            PatternTiming { beat_length: 0, pattern_length: 0 },
        );
        assert(self@.lanes =~= after.lanes);
    }

    /// Whether `apply` can take a command: no index that it shifts leaves the
    /// `usize` range.
    pub fn accepts(&self, cmd: &GraphCommand) -> (ok: bool)
        ensures
            ok == command_fits(self@, *cmd),
    {
        match cmd {
            GraphCommand::InsertEffect { inst, index, effect, .. } => {
                if *inst < self.instruments.len() && effect.outputs == self.num_channels {
                    proof {
                        self.lane_at(*inst);
                    }
                    let at: usize = clip_index(*index, self.instruments[*inst].effects.len());
                    retarget_fits(
                        &self.instruments[*inst].modulators,
                        RackEdit::EffectInserted { at },
                    )
                } else {
                    true
                }
            },
            GraphCommand::SetLaneGroup { inst, group } => match *group {
                Some(g) => {
                    if *inst < self.instruments.len() && g < self.groups.len()
                        && self.instruments[*inst].group != Some(g) {
                        proof {
                            self.lane_at(*inst);
                        }
                        let mut ordinal: usize = 0;
                        let mut i: usize = 0;
                        let ghost lanes = lane_grouped(self@.lanes, *inst, Some(g));
                        while i < *inst
                            invariant
                                i <= *inst < self.instruments.len(),
                                lanes == lane_grouped(self@.lanes, *inst, Some(g)),
                                ordinal <= i,
                                ordinal == members_before(lanes, g, i as int),
                            decreases *inst - i,
                        {
                            assert(lanes[i as int] == self.instruments@[i as int]@);
                            if self.instruments[i].group == Some(g) {
                                ordinal += 1;
                            }
                            i += 1;
                        }
                        assert(self@.groups[g as int] == self.groups@[g as int]@);
                        retarget_fits(
                            &self.groups[g].modulators,
                            RackEdit::MemberInserted { inserted: ordinal },
                        )
                    } else {
                        true
                    }
                },
                None => true,
            },
            _ => true,
        }
    }

    /// Carry out one command and say what has to be done outside the graph.
    /// `timing` is read by the recording command only.
    pub fn apply(&mut self, cmd: GraphCommand, timing: PatternTiming) -> (effects: Vec<GraphEffect>)
        requires
            graph_valid(old(self)@),
            command_fits(old(self)@, cmd),
        ensures
            final(self)@ == graph_after(old(self)@, cmd, timing),
            effect_list(effects@) == effects_after(old(self)@, cmd, timing),
            graph_valid(final(self)@),
    {
        let ghost before = self@;
        let ghost command = cmd;
        assert(before.lanes.len() == self.instruments.len());
        let effects = self.dispatch(cmd, timing);
        proof {
            assert(self@.lanes.len() == self.instruments.len());
            commands_keep_graph_valid(before, command, timing);
        }
        effects
    }

    fn dispatch(&mut self, cmd: GraphCommand, timing: PatternTiming) -> (effects: Vec<GraphEffect>)
        requires
            graph_valid(old(self)@),
            command_fits(old(self)@, cmd),
        ensures
            final(self)@ == graph_after(old(self)@, cmd, timing),
            effect_list(effects@) == effects_after(old(self)@, cmd, timing),
    {
        match cmd {
            GraphCommand::SwapInstrument { inst, instrument, inst_outputs, remapper } => {
                return self.swap_instrument(inst, instrument, inst_outputs, remapper);
            },
            GraphCommand::InsertEffect { inst, index, effect, mix } => {
                return self.insert_lane_effect(inst, index, effect, mix);
            },
            GraphCommand::RemoveEffect { inst, index } => {
                return self.remove_lane_effect(inst, index);
            },
            GraphCommand::ReorderEffect { inst, from, to } => {
                self.reorder_lane_effect(inst, from, to);
            },
            GraphCommand::SetParameter { inst, slot, param_index, value } => {
                return self.set_parameter(inst, slot, param_index, value);
            },
            GraphCommand::LoadPreset { inst, slot, preset_id } => {
                return self.load_preset(inst, slot, preset_id);
            },
            GraphCommand::ClearInstrument { inst } => {
                return self.clear_lane_instrument(inst);
            },
            GraphCommand::SwapInstruments { inst_a, inst_b } => {
                self.swap_lane_instruments(inst_a, inst_b);
            },
            GraphCommand::AddInstrument { range } => {
                self.add_instrument(range);
            },
            GraphCommand::RemoveInstrument { inst } => {
                return self.remove_instrument(inst);
            },
            GraphCommand::AddGroup => {
                let ghost before = self@;
                self.groups.push(Group::new());
                assert(self@.groups =~= before.groups.push(fresh_group()));
            },
            GraphCommand::RemoveGroup { group } => {
                return self.remove_group(group);
            },
            GraphCommand::SetLaneGroup { inst, group } => {
                self.set_lane_group(inst, group);
            },
            GraphCommand::InsertGroupEffect { group, index, effect, mix } => {
                return self.insert_bus_effect(group, index, effect, mix);
            },
            GraphCommand::RemoveGroupEffect { group, index } => {
                return self.remove_bus_effect(group, index);
            },
            GraphCommand::ReorderGroupEffect { group, from, to } => {
                self.reorder_bus_effect(group, from, to);
            },
            GraphCommand::SetGroupParameter { group, index, param_index, value } => {
                return self.set_bus_parameter(group, index, param_index, value);
            },
            GraphCommand::SetPatternRecording { inst, recording } => {
                return self.set_pattern_recording(inst, recording, timing);
            },
            GraphCommand::SetPattern { inst, pattern, base_note, in_key } => {
                self.set_pattern(inst, pattern, base_note, in_key);
            },
            GraphCommand::ClearPattern { inst } => {
                self.clear_pattern(inst);
            },
            GraphCommand::SwapPatterns { inst_a, inst_b } => {
                self.swap_lane_patterns(inst_a, inst_b);
            },
            GraphCommand::SetGlobalBpm { bpm } => {
                self.set_global_bpm(bpm);
            },
            GraphCommand::SetMix { inst, slot, value } => {
                self.set_lane(inst, LaneSetting::Mix { slot, mix: value });
            },
            GraphCommand::SetVolume { inst, value } => {
                self.set_lane(inst, LaneSetting::Volume { value });
            },
            GraphCommand::SetInstrumentRange { inst, range } => {
                self.set_lane(inst, LaneSetting::Range { range });
            },
            GraphCommand::SetTranspose { inst, semitones } => {
                self.set_lane(inst, LaneSetting::Transpose { semitones });
            },
            GraphCommand::SetPatternEnabled { inst, enabled } => {
                self.set_lane(inst, LaneSetting::PatternEnabled { enabled });
            },
            GraphCommand::SetPatternLength { inst, beats } => {
                self.set_lane(inst, LaneSetting::PatternLength { beats });
            },
            GraphCommand::SetPatternLooping { inst, looping } => {
                self.set_lane(inst, LaneSetting::PatternLooping { looping });
            },
            GraphCommand::SetPatternInKey { inst, in_key } => {
                self.set_lane(inst, LaneSetting::PatternInKey { in_key });
            },
            GraphCommand::SetGroupVolume { group, value } => {
                self.set_group(group, GroupSetting::Volume { value });
            },
            GraphCommand::SetGroupPan { group, value } => {
                self.set_group(group, GroupSetting::Pan { value });
            },
            GraphCommand::SetGroupMix { group, index, value } => {
                self.set_group(group, GroupSetting::Mix { index, mix: value });
            },
            GraphCommand::InsertModulator { inst, index, source } => {
                self.command_lane_rack(inst, RackCommand::Insert { index, source });
            },
            GraphCommand::RemoveModulator { inst, index } => {
                self.command_lane_rack(inst, RackCommand::Remove { index });
            },
            GraphCommand::SetModulatorRate { inst, mod_index, rate } => {
                self.command_lane_rack(inst, RackCommand::SetRate { mod_index, rate });
            },
            GraphCommand::SetModulatorWaveform { inst, mod_index, waveform } => {
                self.command_lane_rack(inst, RackCommand::SetWaveform { mod_index, waveform });
            },
            GraphCommand::SetModulatorSource { inst, mod_index, source } => {
                self.command_lane_rack(inst, RackCommand::SetSource { mod_index, source });
            },
            GraphCommand::SetModulatorEnvelopeParam { inst, mod_index, attack, decay, sustain, release } => {
                self.command_lane_rack(inst, RackCommand::SetEnvelope { mod_index, attack, decay, sustain, release });
            },
            GraphCommand::AddModTarget { inst, mod_index, target } => {
                self.command_lane_rack(inst, RackCommand::AddTarget { mod_index, target });
            },
            GraphCommand::RemoveModTarget { inst, mod_index, target_index } => {
                self.command_lane_rack(inst, RackCommand::RemoveTarget { mod_index, target_index });
            },
            GraphCommand::SetModTargetDepth { inst, mod_index, target_index, depth } => {
                self.command_lane_rack(inst, RackCommand::SetDepth { mod_index, target_index, depth });
            },
            GraphCommand::InsertGroupModulator { group, index, source } => {
                self.command_group_rack(group, RackCommand::Insert { index, source });
            },
            GraphCommand::RemoveGroupModulator { group, index } => {
                self.command_group_rack(group, RackCommand::Remove { index });
            },
            GraphCommand::SetGroupModulatorRate { group, mod_index, rate } => {
                self.command_group_rack(group, RackCommand::SetRate { mod_index, rate });
            },
            GraphCommand::SetGroupModulatorWaveform { group, mod_index, waveform } => {
                self.command_group_rack(group, RackCommand::SetWaveform { mod_index, waveform });
            },
            GraphCommand::SetGroupModulatorSource { group, mod_index, source } => {
                self.command_group_rack(group, RackCommand::SetSource { mod_index, source });
            },
            GraphCommand::SetGroupModulatorEnvelopeParam { group, mod_index, attack, decay, sustain, release } => {
                self.command_group_rack(group, RackCommand::SetEnvelope { mod_index, attack, decay, sustain, release });
            },
            GraphCommand::AddGroupModTarget { group, mod_index, target } => {
                self.command_group_rack(group, RackCommand::AddTarget { mod_index, target });
            },
            GraphCommand::RemoveGroupModTarget { group, mod_index, target_index } => {
                self.command_group_rack(group, RackCommand::RemoveTarget { mod_index, target_index });
            },
            GraphCommand::SetGroupModTargetDepth { group, mod_index, target_index, depth } => {
                self.command_group_rack(group, RackCommand::SetDepth { mod_index, target_index, depth });
            },
        }
        no_effects()
    }
}

} // verus!
