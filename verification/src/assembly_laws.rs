//! A loaded session is what the graph plays.

use vstd::prelude::*;

use crate::assembly::{
    bus_commands, bus_effect_commands, bus_rack_commands, bus_rack_steps, bus_steps,
    instrument_commands, lane_effect_commands, lane_steps, member_chains, member_racks,
    pattern_steps, plugin_params, session_loaded,
    session_steps, slot_chain, slot_loaded, slot_rack_commands, slot_steps, step_list, step_of,
    transpose_commands, LoadedPlugin, LoadedSlot, SetupStep,
};
use crate::bus::{fresh_group, GroupModel};
use crate::command::{
    bus_effect_inserted, command_fits, effect_inserted, graph_after, lane_added, param_centred,
    with_lane, GraphCommand, PatternTiming,
};
use crate::config::{
    mod_config_list, EffectConfig, GroupConfig, InstrumentSlotConfig, ModConfigModel, ParamModel, ParamSetting,
    PatternConfig, SessionConfig,
};
use crate::graph::{first_bus_effect, graph_rate, membership, GraphModel};
use crate::lane::{lane_sample_rate, remapper_view, LaneModel, PluginHandle};
use crate::loader::{
    config_source, entry_targets, graph_mod_target, group_mod_targets, group_rack_commands,
    lane_entries, lane_rack_commands,
    modulator_commands, target_command, LaneEntry, LoadedModel, RackOwner, ResolvedModel,
};
use crate::modulation::{rack_after, rack_rebased, ModTargetKind, ModulatorModel, RackEdit};
use crate::pattern::{pattern_set, PlayerModel};
use crate::rack::{fresh_modulator, rack_commanded, RackCommand};
use crate::scalar::{F32Bits, F64Bits, ONE};
use crate::setup::{
    config_events, group_commands, lane_commands, override_commands, swap_commands,
    OverrideOwner,
};

verus! {

// ---------------------------------------------------------------------------
// Carrying out commands in order
// ---------------------------------------------------------------------------

/// The graph after the first `n` commands.
pub open spec fn graph_after_all(
    g: GraphModel,
    commands: Seq<GraphCommand>,
    timing: PatternTiming,
    n: nat,
) -> GraphModel
    decreases n,
{
    if n == 0 {
        g
    } else {
        graph_after(
            graph_after_all(g, commands, timing, (n - 1) as nat),
            commands[n - 1],
            timing,
        )
    }
}

/// The graph after a step.
#[verifier::opaque]
spec fn step_done(g: GraphModel, step: SetupStep, timing: PatternTiming) -> GraphModel {
    match step {
        SetupStep::Plain { command } => graph_after(g, command, timing),
        SetupStep::Pattern { inst, events, length_samples, base_note, in_key } => with_lane(
            g,
            inst,
            |l: LaneModel|
                LaneModel {
                    pattern: pattern_set(l.pattern, events, length_samples, base_note, in_key),
                    ..l
                },
        ),
    }
}

/// A step is taken by the graph.
#[verifier::opaque]
spec fn step_fits(g: GraphModel, step: SetupStep) -> bool {
    match step {
        SetupStep::Plain { command } => command_fits(g, command),
        SetupStep::Pattern { .. } => true,
    }
}

/// The graph after steps.
spec fn steps_done(g: GraphModel, steps: Seq<SetupStep>, timing: PatternTiming) -> GraphModel
    decreases steps.len(),
{
    if steps.len() == 0 {
        g
    } else {
        step_done(steps_done(g, steps.drop_last(), timing), steps.last(), timing)
    }
}

/// All steps are taken by the graph.
spec fn steps_fit(g: GraphModel, steps: Seq<SetupStep>, timing: PatternTiming) -> bool
    decreases steps.len(),
{
    steps.len() > 0 ==> {
        &&& steps_fit(g, steps.drop_last(), timing)
        &&& step_fits(steps_done(g, steps.drop_last(), timing), steps.last())
    }
}

proof fn commands_are_steps(
    g: GraphModel,
    commands: Seq<GraphCommand>,
    timing: PatternTiming,
    n: nat,
)
    requires
        n <= commands.len(),
    ensures
        graph_after_all(g, commands, timing, n) == steps_done(
            g,
            step_list(commands).take(n as int),
            timing,
        ),
    decreases n,
{
    let steps = step_list(commands).take(n as int);
    reveal(step_done);
    if n > 0 {
        commands_are_steps(g, commands, timing, (n - 1) as nat);
        assert(steps.drop_last() =~= step_list(commands).take(n - 1));
        assert(steps.last() == step_of(commands[n - 1]));
    }
}

proof fn fits_are_steps(g: GraphModel, commands: Seq<GraphCommand>, timing: PatternTiming, n: nat)
    requires
        n <= commands.len(),
        steps_fit(g, step_list(commands).take(n as int), timing),
    ensures
        forall|k: nat|
            k < n ==> #[trigger] command_fits(
                graph_after_all(g, commands, timing, k),
                commands[k as int],
            ),
    decreases n,
{
    if n > 0 {
        let steps = step_list(commands).take(n as int);
        reveal(step_fits);
        assert(steps.drop_last() =~= step_list(commands).take(n - 1));
        assert(steps.last() == step_of(commands[n - 1]));
        fits_are_steps(g, commands, timing, (n - 1) as nat);
        commands_are_steps(g, commands, timing, (n - 1) as nat);
    }
}

proof fn steps_join(g: GraphModel, a: Seq<SetupStep>, b: Seq<SetupStep>, timing: PatternTiming)
    ensures
        steps_done(g, a + b, timing) == steps_done(steps_done(g, a, timing), b, timing),
        steps_fit(g, a, timing) && steps_fit(steps_done(g, a, timing), b, timing) ==> steps_fit(
            g,
            a + b,
            timing,
        ),
    decreases b.len(),
{
    if b.len() == 0 {
        assert(a + b =~= a);
    } else {
        steps_join(g, a, b.drop_last(), timing);
        assert((a + b).drop_last() =~= a + b.drop_last());
    }
}

proof fn one_step(g: GraphModel, steps: Seq<SetupStep>, step: SetupStep, timing: PatternTiming)
    ensures
        steps_done(g, steps.push(step), timing) == step_done(
            steps_done(g, steps, timing),
            step,
            timing,
        ),
        steps_fit(g, steps, timing) && step_fits(steps_done(g, steps, timing), step) ==> steps_fit(
            g,
            steps.push(step),
            timing,
        ),
{
    assert(steps.push(step).drop_last() =~= steps);
}

// ---------------------------------------------------------------------------
// Commands on the last lane
// ---------------------------------------------------------------------------

/// A graph with one more lane.
spec fn with_last(base: GraphModel, l: LaneModel) -> GraphModel {
    GraphModel { lanes: base.lanes.push(l), ..base }
}

/// No group has modulators.
spec fn still(g: GraphModel) -> bool {
    forall|k: int| 0 <= k < g.groups.len() ==> (#[trigger] g.groups[k]).modulators.len() == 0
}

/// A lane after a command that addresses it.
spec fn lane_stepped(l: LaneModel, cmd: GraphCommand, channels: usize) -> LaneModel {
    match cmd {
        GraphCommand::SwapInstrument { instrument, inst_outputs, remapper, .. } => LaneModel {
            instrument: Some(instrument),
            inst_outputs,
            remapper: remapper_view(remapper),
            ..l
        },
        GraphCommand::InsertEffect { index, effect, mix, .. } => if effect.outputs == channels {
            effect_inserted(l, index, effect, mix)
        } else {
            l
        },
        GraphCommand::SetParameter { slot, param_index, value, .. } => param_centred(
            l,
            slot,
            param_index,
            value,
        ),
        GraphCommand::SetVolume { value, .. } => LaneModel { volume: value, ..l },
        GraphCommand::SetTranspose { semitones, .. } => LaneModel { transpose: semitones, ..l },
        GraphCommand::InsertModulator { index, source, .. } => LaneModel {
            modulators: rack_commanded(
                l.modulators,
                RackCommand::Insert { index, source },
                lane_sample_rate(l),
            ),
            ..l
        },
        GraphCommand::AddModTarget { mod_index, target, .. } => LaneModel {
            modulators: rack_commanded(
                l.modulators,
                RackCommand::AddTarget { mod_index, target },
                lane_sample_rate(l),
            ),
            ..l
        },
        _ => l,
    }
}

/// A command that changes lane `at` alone.
spec fn names_lane(cmd: GraphCommand, at: int) -> bool {
    match cmd {
        GraphCommand::SwapInstrument { inst, .. } => inst == at,
        GraphCommand::InsertEffect { inst, .. } => inst == at,
        GraphCommand::SetParameter { inst, .. } => inst == at,
        GraphCommand::SetVolume { inst, .. } => inst == at,
        GraphCommand::SetTranspose { inst, .. } => inst == at,
        GraphCommand::InsertModulator { inst, .. } => inst == at,
        GraphCommand::AddModTarget { inst, .. } => inst == at,
        _ => false,
    }
}

proof fn last_lane_steps(base: GraphModel, l: LaneModel, cmd: GraphCommand, timing: PatternTiming)
    requires
        still(base),
        names_lane(cmd, base.lanes.len() as int),
        cmd is InsertEffect ==> l.modulators.len() == 0,
    ensures
        graph_after(with_last(base, l), cmd, timing) == with_last(
            base,
            lane_stepped(l, cmd, base.num_channels),
        ),
        command_fits(with_last(base, l), cmd),
        lane_stepped(l, cmd, base.num_channels).group == l.group,
{
    let g = with_last(base, l);
    let after = with_last(base, lane_stepped(l, cmd, base.num_channels));
    let last = base.lanes.len() as int;
    assert(g.lanes[last] == l);
    assert(g.lanes.update(last, lane_stepped(l, cmd, base.num_channels)) =~= after.lanes);
    match membership(after.lanes, last as usize) {
        Some((group, ordinal)) if group < base.groups.len() => {
            let b = base.groups[group as int];
            assert(base.groups.update(group as int, b) =~= base.groups);
            if let GraphCommand::SetParameter { slot, param_index, value, .. } = cmd {
                let kind = ModTargetKind::GroupMember { member: ordinal, slot, param_index };
                assert(rack_rebased(b.modulators, kind, value) =~= b.modulators);
                assert(GroupModel {
                    modulators: rack_rebased(b.modulators, kind, value),
                    ..b
                } == b);
            }
        },
        _ => {},
    }
    assert(graph_after(g, cmd, timing) =~= after);
}

/// A lane after commands that address it.
spec fn lane_folded(l: LaneModel, cmds: Seq<GraphCommand>, channels: usize) -> LaneModel
    decreases cmds.len(),
{
    if cmds.len() == 0 {
        l
    } else {
        lane_stepped(lane_folded(l, cmds.drop_last(), channels), cmds.last(), channels)
    }
}

/// Effects come before modulators.
spec fn fold_fits(l: LaneModel, cmds: Seq<GraphCommand>, channels: usize) -> bool
    decreases cmds.len(),
{
    cmds.len() > 0 ==> {
        &&& fold_fits(l, cmds.drop_last(), channels)
        &&& cmds.last() is InsertEffect ==> lane_folded(
            l,
            cmds.drop_last(),
            channels,
        ).modulators.len() == 0
    }
}

/// All commands change lane `at` alone.
spec fn all_name_lane(cmds: Seq<GraphCommand>, at: int) -> bool {
    forall|k: int| 0 <= k < cmds.len() ==> names_lane(#[trigger] cmds[k], at)
}

proof fn lane_fold_steps(
    base: GraphModel,
    l: LaneModel,
    cmds: Seq<GraphCommand>,
    timing: PatternTiming,
)
    requires
        still(base),
        all_name_lane(cmds, base.lanes.len() as int),
        fold_fits(l, cmds, base.num_channels),
    ensures
        steps_done(with_last(base, l), step_list(cmds), timing) == with_last(
            base,
            lane_folded(l, cmds, base.num_channels),
        ),
        steps_fit(with_last(base, l), step_list(cmds), timing),
    decreases cmds.len(),
{
    let steps = step_list(cmds);
    reveal(step_done);
    reveal(step_fits);
    if cmds.len() > 0 {
        lane_fold_steps(base, l, cmds.drop_last(), timing);
        assert(steps.drop_last() =~= step_list(cmds.drop_last()));
        assert(names_lane(cmds.last(), base.lanes.len() as int));
        assert(steps.last() == SetupStep::Plain { command: cmds.last() });
        last_lane_steps(
            base,
            lane_folded(l, cmds.drop_last(), base.num_channels),
            cmds.last(),
            timing,
        );
    }
}

proof fn folds_join(l: LaneModel, a: Seq<GraphCommand>, b: Seq<GraphCommand>, channels: usize)
    ensures
        lane_folded(l, a + b, channels) == lane_folded(lane_folded(l, a, channels), b, channels),
        fold_fits(l, a, channels) && fold_fits(lane_folded(l, a, channels), b, channels)
            ==> fold_fits(l, a + b, channels),
    decreases b.len(),
{
    if b.len() == 0 {
        assert(a + b =~= a);
    } else {
        folds_join(l, a, b.drop_last(), channels);
        assert((a + b).drop_last() =~= a + b.drop_last());
    }
}

proof fn one_fold(l: LaneModel, cmd: GraphCommand, channels: usize)
    ensures
        lane_folded(l, seq![cmd], channels) == lane_stepped(l, cmd, channels),
        (cmd is InsertEffect ==> l.modulators.len() == 0) ==> fold_fits(l, seq![cmd], channels),
{
    let cmds = seq![cmd];
    assert(cmds.drop_last() =~= Seq::empty());
    assert(lane_folded(l, cmds.drop_last(), channels) == l);
    assert(fold_fits(l, cmds.drop_last(), channels));
}

proof fn overrides_fold(
    l: LaneModel,
    inst: usize,
    slot: usize,
    params: Seq<ParamModel>,
    settings: Seq<ParamSetting>,
    n: nat,
    channels: usize,
)
    requires
        l.modulators.len() == 0,
    ensures
        ({
            let cmds = override_commands(
                OverrideOwner::Chain { inst, slot },
                params,
                settings,
                n,
            );
            &&& lane_folded(l, cmds, channels) == l
            &&& fold_fits(l, cmds, channels)
            &&& all_name_lane(cmds, inst as int)
        }),
    decreases n,
{
    let owner = OverrideOwner::Chain { inst, slot };
    if n > 0 {
        overrides_fold(l, inst, slot, params, settings, (n - 1) as nat, channels);
        let rest = override_commands(owner, params, settings, (n - 1) as nat);
        let cmds = override_commands(owner, params, settings, n);
        if cmds.len() > rest.len() {
            assert(cmds.drop_last() =~= rest);
            assert(lane_stepped(l, cmds.last(), channels).modulators =~= l.modulators);
            assert(lane_stepped(l, cmds.last(), channels) =~= l);
        }
    }
}

/// The effects among the first `n` that the graph takes: those with an output
/// for each of its channels.
pub open spec fn effects_taken(plugins: Seq<LoadedPlugin>, channels: usize, n: nat) -> Seq<
    PluginHandle,
>
    decreases n,
{
    if n == 0 {
        Seq::empty()
    } else {
        let rest = effects_taken(plugins, channels, (n - 1) as nat);
        if plugins[n - 1].handle.outputs == channels {
            rest.push(plugins[n - 1].handle)
        } else {
            rest
        }
    }
}

/// The mix values of the effects among the first `n` that the graph takes.
pub open spec fn mixes_taken(
    configs: Seq<EffectConfig>,
    plugins: Seq<LoadedPlugin>,
    channels: usize,
    n: nat,
) -> Seq<F64Bits>
    decreases n,
{
    if n == 0 {
        Seq::empty()
    } else {
        let rest = mixes_taken(configs, plugins, channels, (n - 1) as nat);
        if plugins[n - 1].handle.outputs == channels {
            rest.push(configs[n - 1].mix)
        } else {
            rest
        }
    }
}

proof fn effects_fold(
    l: LaneModel,
    inst: usize,
    configs: Seq<EffectConfig>,
    plugins: Seq<LoadedPlugin>,
    n: nat,
    channels: usize,
)
    requires
        n <= plugins.len() <= usize::MAX,
        l.modulators.len() == 0,
        l.effects.len() == 0,
        l.mix_values.len() == 0,
    ensures
        ({
            let cmds = lane_effect_commands(inst, configs, plugins, n);
            &&& lane_folded(l, cmds, channels) == (LaneModel {
                effects: effects_taken(plugins, channels, n),
                mix_values: mixes_taken(configs, plugins, channels, n),
                ..l
            })
            &&& fold_fits(l, cmds, channels)
            &&& all_name_lane(cmds, inst as int)
        }),
        effects_taken(plugins, channels, n).len() == mixes_taken(
            configs,
            plugins,
            channels,
            n,
        ).len() <= n,
    decreases n,
{
    if n == 0 {
        let cmds = lane_effect_commands(inst, configs, plugins, 0);
        assert(lane_folded(l, cmds, channels) =~= (LaneModel {
            effects: effects_taken(plugins, channels, 0),
            mix_values: mixes_taken(configs, plugins, channels, 0),
            ..l
        }));
    } else {
        let k = (n - 1) as nat;
        effects_fold(l, inst, configs, plugins, k, channels);
        let rest = lane_effect_commands(inst, configs, plugins, k);
        let before = lane_folded(l, rest, channels);
        let c = configs[n - 1];
        let p = plugins[n - 1];
        let insert = GraphCommand::InsertEffect {
            inst,
            index: (n - 1) as usize,
            effect: p.handle,
            mix: c.mix,
        };
        let after = LaneModel {
            effects: effects_taken(plugins, channels, n),
            mix_values: mixes_taken(configs, plugins, channels, n),
            ..l
        };
        assert(lane_stepped(before, insert, channels) =~= after) by {
            if p.handle.outputs == channels {
                assert(before.effects.insert(before.effects.len() as int, p.handle)
                    =~= before.effects.push(p.handle));
                assert(before.mix_values.insert(before.mix_values.len() as int, c.mix)
                    =~= before.mix_values.push(c.mix));
                assert(lane_stepped(before, insert, channels).modulators =~= l.modulators);
            }
        }
        assert(rest.push(insert).drop_last() =~= rest);
        let params = crate::config::param_list(p.params@);
        let overrides = override_commands(
            OverrideOwner::Chain { inst, slot: n as usize },
            params,
            c.params@,
            c.params@.len(),
        );
        overrides_fold(after, inst, n as usize, params, c.params@, c.params@.len(), channels);
        folds_join(l, rest.push(insert), overrides, channels);
        assert(lane_folded(l, rest.push(insert), channels) == after);
        assert(fold_fits(l, rest.push(insert), channels));
    }
}

/// A modulator as it starts: at rest, with its targets.
pub open spec fn modulator_built(
    m: ModConfigModel,
    targets: Seq<ResolvedModel>,
    rate: F32Bits,
) -> ModulatorModel {
    ModulatorModel {
        source: config_source(m),
        sample_rate: rate,
        targets: Seq::new(targets.len(), |k: int| graph_mod_target(targets[k])),
        last_output: F32Bits { bits: 0 },
    }
}

/// The first `n` modulators of a lane as they start.
pub open spec fn lane_rack_built(
    entries: Seq<LaneEntry>,
    chain: Seq<Seq<ParamModel>>,
    rate: F32Bits,
    n: nat,
) -> Seq<ModulatorModel> {
    Seq::new(
        n,
        |i: int| modulator_built(entries[i].config, entry_targets(entries[i], chain), rate),
    )
}

proof fn modulator_fold(
    l: LaneModel,
    inst: usize,
    m: ModConfigModel,
    targets: Seq<ResolvedModel>,
    n: nat,
    channels: usize,
)
    requires
        l.modulators.len() <= usize::MAX,
        n <= targets.len(),
    ensures
        ({
            let cmds = modulator_commands(
                RackOwner::Lane { inst },
                l.modulators.len() as int,
                m,
                targets.take(n as int),
            );
            let built = modulator_built(m, targets.take(n as int), lane_sample_rate(l));
            &&& lane_folded(l, cmds, channels) == (LaneModel {
                modulators: l.modulators.push(built),
                ..l
            })
            &&& fold_fits(l, cmds, channels)
            &&& all_name_lane(cmds, inst as int)
        }),
    decreases n,
{
    let owner = RackOwner::Lane { inst };
    let index = l.modulators.len() as int;
    let ts = targets.take(n as int);
    let cmds = modulator_commands(owner, index, m, ts);
    let rate = lane_sample_rate(l);
    let after = LaneModel { modulators: l.modulators.push(modulator_built(m, ts, rate)), ..l };
    if n == 0 {
        let insert = crate::loader::insert_command(owner, index as usize, config_source(m));
        assert(cmds =~= seq![insert]);
        one_fold(l, insert, channels);
        assert(modulator_built(m, ts, rate).targets =~= Seq::empty());
        assert(fresh_modulator(config_source(m), rate) == modulator_built(m, ts, rate));
        assert(l.modulators.insert(index, fresh_modulator(config_source(m), rate))
            =~= after.modulators);
        assert(lane_stepped(l, insert, channels) =~= after);
    } else {
        let k = (n - 1) as nat;
        let before_ts = targets.take(k as int);
        modulator_fold(l, inst, m, targets, k, channels);
        let rest = modulator_commands(owner, index, m, before_ts);
        let last = target_command(owner, index as usize, graph_mod_target(targets[n - 1]));
        assert(cmds =~= rest.push(last));
        assert(cmds.drop_last() =~= rest);
        let before = lane_folded(l, rest, channels);
        let built = modulator_built(m, before_ts, rate);
        assert(before.modulators[index] == built);
        assert(built.targets.push(graph_mod_target(targets[n - 1])) =~= modulator_built(
            m,
            ts,
            rate,
        ).targets);
        assert(lane_stepped(before, last, channels).modulators =~= after.modulators);
        assert(lane_stepped(before, last, channels) =~= after);
    }
}

proof fn rack_fold(
    l: LaneModel,
    inst: usize,
    entries: Seq<LaneEntry>,
    chain: Seq<Seq<ParamModel>>,
    n: nat,
    channels: usize,
)
    requires
        l.modulators.len() == 0,
        n <= entries.len() <= usize::MAX,
    ensures
        ({
            let cmds = lane_rack_commands(inst, entries, chain, n);
            &&& lane_folded(l, cmds, channels) == (LaneModel {
                modulators: lane_rack_built(entries, chain, lane_sample_rate(l), n),
                ..l
            })
            &&& fold_fits(l, cmds, channels)
            &&& all_name_lane(cmds, inst as int)
        }),
    decreases n,
{
    let rate = lane_sample_rate(l);
    if n == 0 {
        assert(lane_rack_built(entries, chain, rate, 0) =~= l.modulators);
    } else {
        let k = (n - 1) as nat;
        rack_fold(l, inst, entries, chain, k, channels);
        let rest = lane_rack_commands(inst, entries, chain, k);
        let before = lane_folded(l, rest, channels);
        let m = entries[n - 1].config;
        let targets = entry_targets(entries[n - 1], chain);
        assert(targets.take(targets.len() as int) =~= targets);
        modulator_fold(before, inst, m, targets, targets.len(), channels);
        let more = modulator_commands(RackOwner::Lane { inst }, n - 1, m, targets);
        folds_join(l, rest, more, channels);
        assert(lane_rack_built(entries, chain, rate, n) =~= lane_rack_built(
            entries,
            chain,
            rate,
            k,
        ).push(modulator_built(m, targets, rate)));
    }
}

// ---------------------------------------------------------------------------
// Lanes
// ---------------------------------------------------------------------------

/// The membership that a lane gets: none where there is no such group.
pub open spec fn group_joined(group: Option<usize>, groups: nat) -> Option<usize> {
    if group is Some && group->0 < groups {
        group
    } else {
        None
    }
}

/// A lane has the instrument that was loaded for it, or none.
pub open spec fn instrument_plays(l: LaneModel, c: InstrumentSlotConfig, s: LoadedSlot) -> bool {
    match (c.instrument, s.instrument) {
        (Some(c), Some(s)) => {
            &&& l.instrument == Some(s.plugin.handle)
            &&& l.inst_outputs == s.plugin.handle.outputs
            &&& l.remapper == remapper_view(s.remapper)
            &&& l.volume == (if c.volume.off_unity() {
                s.gain
            } else {
                F32Bits { bits: ONE }
            })
        },
        _ => {
            &&& l.instrument is None
            &&& l.inst_outputs == 0
            &&& l.remapper is None
            &&& l.volume == F32Bits { bits: ONE }
        },
    }
}

/// A player has the pattern that is configured, or none. A pattern with events
/// is always enabled.
pub open spec fn pattern_plays(p: PlayerModel, c: Option<PatternConfig>, length: u64) -> bool {
    match c {
        Some(c) => {
            &&& p.events == config_events(c.events@)
            &&& p.length_samples == length
            &&& p.base_note == c.base_note
            &&& p.in_key == c.in_key
            &&& p.length_beats == c.length_beats
            &&& p.looping == c.looping
            &&& p.enabled == (c.enabled || c.events@.len() > 0)
        },
        None => {
            &&& p.events.len() == 0
            &&& p.base_note is None
            &&& !p.enabled
        },
    }
}

/// A lane plays what its configuration says and what was loaded for it.
pub open spec fn lane_plays(
    l: LaneModel,
    c: InstrumentSlotConfig,
    s: LoadedSlot,
    channels: usize,
    groups: nat,
) -> bool {
    let entries = lane_entries(c, c.effects@.len());
    &&& l.range == c.range
    &&& l.group == group_joined(c.group, groups)
    &&& instrument_plays(l, c, s)
    &&& l.effects == effects_taken(s.effects@, channels, s.effects@.len())
    &&& l.mix_values == mixes_taken(c.effects@, s.effects@, channels, s.effects@.len())
    &&& l.modulators == lane_rack_built(
        entries,
        slot_chain(s),
        lane_sample_rate(l),
        entries.len(),
    )
    &&& l.transpose == c.transpose
    &&& pattern_plays(l.pattern, c.pattern, s.pattern_length)
}

proof fn lane_starts(
    base: GraphModel,
    range: Option<(u8, u8)>,
    group: Option<usize>,
    timing: PatternTiming,
)
    requires
        still(base),
        base.lanes.len() < usize::MAX,
    ensures
        ({
            let inst = base.lanes.len() as usize;
            let steps = step_list(lane_commands(inst, range, group));
            let l = lane_added(range, inst as int, base.notifies);
            &&& steps_done(base, steps, timing) == with_last(
                base,
                LaneModel { group: group_joined(group, base.groups.len()), ..l },
            )
            &&& steps_fit(base, steps, timing)
        }),
{
    let inst = base.lanes.len() as usize;
    let cmds = lane_commands(inst, range, group);
    let steps = step_list(cmds);
    let l = lane_added(range, inst as int, base.notifies);
    let joined = LaneModel { group: group_joined(group, base.groups.len()), ..l };
    let add = GraphCommand::AddInstrument { range };
    reveal(step_done);
    reveal(step_fits);
    let first = seq![step_of(add)];
    assert(first.drop_last() =~= Seq::empty());
    assert(steps_done(base, first.drop_last(), timing) == base);
    assert(steps_fit(base, first.drop_last(), timing));
    assert(steps_done(base, first, timing) == with_last(base, l));
    if group is None {
        assert(steps =~= first);
        assert(joined == l);
    } else {
        let join = GraphCommand::SetLaneGroup { inst, group };
        assert(steps =~= first.push(step_of(join)));
        one_step(base, first, step_of(join), timing);
        let g = with_last(base, l);
        let after = with_last(base, joined);
        assert(g.lanes[inst as int] == l);
        assert(g.lanes.update(inst as int, joined) =~= after.lanes);
        if group->0 < base.groups.len() {
            let b = base.groups[group->0 as int];
            let ordinal = (membership(after.lanes, inst)->0).1;
            let edit = RackEdit::MemberInserted { inserted: ordinal };
            assert(rack_after(b.modulators, edit) =~= b.modulators);
            assert(GroupModel { modulators: rack_after(b.modulators, edit), ..b } == b);
            assert(base.groups.update(group->0 as int, b) =~= base.groups);
            assert(after.lanes[inst as int] == joined);
            assert(membership(g.lanes, inst) is None);
        }
        assert(graph_after(g, join, timing) =~= after);
        assert(command_fits(g, join));
    }
}

/// All lanes of a graph at one tempo.
spec fn at_tempo(g: GraphModel, bpm: F32Bits) -> GraphModel {
    GraphModel {
        lanes: Seq::new(
            g.lanes.len(),
            |i: int|
                LaneModel { pattern: PlayerModel { bpm, ..g.lanes[i].pattern }, ..g.lanes[i] },
        ),
        ..g
    }
}

/// A lane with its pattern.
spec fn lane_patterned(l: LaneModel, p: PatternConfig, length: u64) -> LaneModel {
    LaneModel {
        pattern: PlayerModel {
            events: config_events(p.events@),
            length_samples: length,
            base_note: p.base_note,
            in_key: p.in_key,
            enabled: p.enabled || p.events@.len() > 0,
            bpm: p.bpm,
            length_beats: p.length_beats,
            looping: l.pattern.looping && p.looping,
            ..l.pattern
        },
        ..l
    }
}

/// The player of the last lane alone changes.
proof fn last_player_steps(
    base: GraphModel,
    l: LaneModel,
    step: SetupStep,
    timing: PatternTiming,
)
    requires
        base.lanes.len() < usize::MAX,
        ({
            let at = base.lanes.len() as usize;
            match step {
                SetupStep::Pattern { inst, .. } => inst == at,
                SetupStep::Plain { command } => match command {
                    GraphCommand::SetPatternLength { inst, .. } => inst == at,
                    GraphCommand::SetPatternEnabled { inst, .. } => inst == at,
                    GraphCommand::SetPatternLooping { inst, .. } => inst == at,
                    _ => false,
                },
            }
        }),
    ensures
        step_fits(with_last(base, l), step),
        step_done(with_last(base, l), step, timing) == with_last(base, player_stepped(l, step)),
{
    let at = base.lanes.len() as int;
    let g = with_last(base, l);
    reveal(step_done);
    reveal(step_fits);
    assert(g.lanes[at] == l);
    assert(g.lanes.update(at, player_stepped(l, step)) =~= with_last(
        base,
        player_stepped(l, step),
    ).lanes);
}

/// A lane after a step on its player.
spec fn player_stepped(l: LaneModel, step: SetupStep) -> LaneModel {
    let p = l.pattern;
    let pattern = match step {
        SetupStep::Pattern { events, length_samples, base_note, in_key, .. } => pattern_set(
            p,
            events,
            length_samples,
            base_note,
            in_key,
        ),
        SetupStep::Plain { command } => match command {
            GraphCommand::SetPatternLength { beats, .. } => PlayerModel {
                length_beats: beats,
                ..p
            },
            GraphCommand::SetPatternEnabled { enabled, .. } => PlayerModel { enabled, ..p },
            GraphCommand::SetPatternLooping { looping, .. } => PlayerModel { looping, ..p },
            _ => p,
        },
    };
    LaneModel { pattern, ..l }
}

proof fn tempo_steps(base: GraphModel, l: LaneModel, bpm: F32Bits, timing: PatternTiming)
    ensures
        ({
            let step = step_of(GraphCommand::SetGlobalBpm { bpm });
            &&& step_fits(with_last(base, l), step)
            &&& step_done(with_last(base, l), step, timing) == with_last(
                at_tempo(base, bpm),
                LaneModel { pattern: PlayerModel { bpm, ..l.pattern }, ..l },
            )
        }),
{
    let step = step_of(GraphCommand::SetGlobalBpm { bpm });
    let paced = LaneModel { pattern: PlayerModel { bpm, ..l.pattern }, ..l };
    reveal(step_done);
    reveal(step_fits);
    assert(step_done(with_last(base, l), step, timing).lanes =~= with_last(
        at_tempo(base, bpm),
        paced,
    ).lanes);
}

proof fn pattern_set_up(
    base: GraphModel,
    l: LaneModel,
    p: PatternConfig,
    length: u64,
    timing: PatternTiming,
)
    requires
        base.lanes.len() < usize::MAX,
        l.pattern.looping,
    ensures
        ({
            let inst = base.lanes.len() as usize;
            let steps = pattern_steps(inst, Some(p), length);
            &&& steps_done(with_last(base, l), steps, timing) == with_last(
                at_tempo(base, p.bpm),
                lane_patterned(l, p, length),
            )
            &&& steps_fit(with_last(base, l), steps, timing)
        }),
{
    let inst = base.lanes.len() as usize;
    let start = with_last(base, l);
    let paced = at_tempo(base, p.bpm);
    let put = SetupStep::Pattern {
        inst,
        events: config_events(p.events@),
        length_samples: length,
        base_note: p.base_note,
        in_key: p.in_key,
    };
    let tempo = step_of(GraphCommand::SetGlobalBpm { bpm: p.bpm });
    let beats = step_of(GraphCommand::SetPatternLength { inst, beats: p.length_beats });
    let enable = step_of(GraphCommand::SetPatternEnabled { inst, enabled: true });
    let once = step_of(GraphCommand::SetPatternLooping { inst, looping: false });

    let s0 = Seq::<SetupStep>::empty();
    let s1 = s0.push(put);
    let l1 = player_stepped(l, put);
    one_step(start, s0, put, timing);
    last_player_steps(base, l, put, timing);

    let s2 = s1.push(tempo);
    let l2 = LaneModel { pattern: PlayerModel { bpm: p.bpm, ..l1.pattern }, ..l1 };
    one_step(start, s1, tempo, timing);
    tempo_steps(base, l1, p.bpm, timing);

    let s3 = s2.push(beats);
    let l3 = player_stepped(l2, beats);
    one_step(start, s2, beats, timing);
    last_player_steps(paced, l2, beats, timing);

    let s4 = if p.enabled {
        s3.push(enable)
    } else {
        s3
    };
    let l4 = if p.enabled {
        player_stepped(l3, enable)
    } else {
        l3
    };
    one_step(start, s3, enable, timing);
    last_player_steps(paced, l3, enable, timing);
    assert(steps_done(start, s4, timing) == with_last(paced, l4));

    let s5 = if !p.looping {
        s4.push(once)
    } else {
        s4
    };
    let l5 = if !p.looping {
        player_stepped(l4, once)
    } else {
        l4
    };
    one_step(start, s4, once, timing);
    last_player_steps(paced, l4, once, timing);
    assert(steps_done(start, s5, timing) == with_last(paced, l5));
    assert(l5 == lane_patterned(l, p, length));
    assert(pattern_steps(inst, Some(p), length) =~= s5);
}

/// A lane with its instrument.
spec fn instrument_put(l: LaneModel, c: InstrumentSlotConfig, s: LoadedSlot) -> LaneModel {
    match (c.instrument, s.instrument) {
        (Some(c), Some(s)) => LaneModel {
            instrument: Some(s.plugin.handle),
            inst_outputs: s.plugin.handle.outputs,
            remapper: remapper_view(s.remapper),
            volume: if c.volume.off_unity() {
                s.gain
            } else {
                l.volume
            },
            ..l
        },
        _ => l,
    }
}

proof fn instrument_fold(
    l: LaneModel,
    inst: usize,
    c: InstrumentSlotConfig,
    s: LoadedSlot,
    channels: usize,
)
    requires
        l.modulators.len() == 0,
    ensures
        ({
            let cmds = instrument_commands(inst, c.instrument, s.instrument);
            &&& lane_folded(l, cmds, channels) == instrument_put(l, c, s)
            &&& fold_fits(l, cmds, channels)
            &&& all_name_lane(cmds, inst as int)
        }),
{
    match (c.instrument, s.instrument) {
        (Some(pc), Some(ps)) => {
            let after = instrument_put(l, c, s);
            let swaps = swap_commands(
                inst,
                ps.plugin.handle,
                ps.remapper,
                pc.volume,
                ps.gain,
            );
            let swap = swaps[0];
            let volume = GraphCommand::SetVolume { inst, value: ps.gain };
            one_fold(l, swap, channels);
            let mid = lane_stepped(l, swap, channels);
            one_fold(mid, volume, channels);
            folds_join(l, seq![swap], seq![volume], channels);
            if pc.volume.off_unity() {
                assert(swaps =~= seq![swap] + seq![volume]);
            } else {
                assert(swaps =~= seq![swap]);
            }
            assert(lane_folded(l, swaps, channels) == after);
            let params = crate::config::param_list(ps.plugin.params@);
            overrides_fold(after, inst, 0, params, pc.params@, pc.params@.len(), channels);
            let overrides = override_commands(
                OverrideOwner::Chain { inst, slot: 0 },
                params,
                pc.params@,
                pc.params@.len(),
            );
            folds_join(l, swaps, overrides, channels);
        },
        _ => {},
    }
}

proof fn transpose_fold(l: LaneModel, inst: usize, semitones: i8, channels: usize)
    requires
        l.transpose == 0,
    ensures
        ({
            let cmds = transpose_commands(inst, semitones);
            &&& lane_folded(l, cmds, channels) == (LaneModel { transpose: semitones, ..l })
            &&& fold_fits(l, cmds, channels)
            &&& all_name_lane(cmds, inst as int)
        }),
{
    one_fold(l, GraphCommand::SetTranspose { inst, semitones }, channels);
}

/// Lanes differ in nothing but their tempo.
spec fn same_but_tempo(a: LaneModel, b: LaneModel) -> bool {
    a == LaneModel { pattern: PlayerModel { bpm: a.pattern.bpm, ..b.pattern }, ..b }
}

/// One more stage of commands on the last lane.
proof fn stage(
    start: GraphModel,
    steps: Seq<SetupStep>,
    base: GraphModel,
    l: LaneModel,
    cmds: Seq<GraphCommand>,
    timing: PatternTiming,
)
    requires
        still(base),
        steps_done(start, steps, timing) == with_last(base, l),
        steps_fit(start, steps, timing),
        all_name_lane(cmds, base.lanes.len() as int),
        fold_fits(l, cmds, base.num_channels),
    ensures
        steps_done(start, steps + step_list(cmds), timing) == with_last(
            base,
            lane_folded(l, cmds, base.num_channels),
        ),
        steps_fit(start, steps + step_list(cmds), timing),
{
    lane_fold_steps(base, l, cmds, timing);
    steps_join(start, steps, step_list(cmds), timing);
}

proof fn slot_set_up(
    base: GraphModel,
    c: InstrumentSlotConfig,
    s: LoadedSlot,
    timing: PatternTiming,
)
    requires
        still(base),
        base.lanes.len() < usize::MAX,
        slot_loaded(c, s),
    ensures
        ({
            let at = base.lanes.len() as int;
            let steps = slot_steps(at as usize, c, s);
            let g = steps_done(base, steps, timing);
            &&& steps_fit(base, steps, timing)
            &&& g.groups == base.groups
            &&& g.num_channels == base.num_channels
            &&& g.lanes.len() == base.lanes.len() + 1
            &&& forall|j: int| 0 <= j < at ==> same_but_tempo(#[trigger] g.lanes[j], base.lanes[j])
            &&& lane_plays(g.lanes[at], c, s, base.num_channels, base.groups.len())
        }),
{
    let at = base.lanes.len() as int;
    let inst = at as usize;
    let channels = base.num_channels;
    let n = s.effects@.len();
    assert(n <= usize::MAX) by {
        assert(s.effects.len() == n);
    }
    let fresh = lane_added(c.range, at, base.notifies);

    let s1 = step_list(lane_commands(inst, c.range, c.group));
    let l1 = LaneModel { group: group_joined(c.group, base.groups.len()), ..fresh };
    lane_starts(base, c.range, c.group, timing);

    let c2 = instrument_commands(inst, c.instrument, s.instrument);
    let s2 = s1 + step_list(c2);
    let l2 = instrument_put(l1, c, s);
    instrument_fold(l1, inst, c, s, channels);
    stage(base, s1, base, l1, c2, timing);

    let c3 = lane_effect_commands(inst, c.effects@, s.effects@, n);
    let s3 = s2 + step_list(c3);
    let l3 = lane_folded(l2, c3, channels);
    effects_fold(l2, inst, c.effects@, s.effects@, n, channels);
    stage(base, s2, base, l2, c3, timing);

    let entries = lane_entries(c, c.effects@.len());
    let c4 = slot_rack_commands(inst, c, s);
    let s4 = s3 + step_list(c4);
    let l4 = lane_folded(l3, c4, channels);
    rack_fold(l3, inst, entries, slot_chain(s), entries.len(), channels);
    stage(base, s3, base, l3, c4, timing);

    let c5 = transpose_commands(inst, c.transpose);
    let s5 = s4 + step_list(c5);
    let l5 = lane_folded(l4, c5, channels);
    transpose_fold(l4, inst, c.transpose, channels);
    stage(base, s4, base, l4, c5, timing);

    let s6 = pattern_steps(inst, c.pattern, s.pattern_length);
    match c.pattern {
        Some(p) => {
            pattern_set_up(base, l5, p, s.pattern_length, timing);
            steps_join(base, s5, s6, timing);
            let l6 = lane_patterned(l5, p, s.pattern_length);
            let g = with_last(at_tempo(base, p.bpm), l6);
            assert(g.lanes[at] == l6);
            assert forall|j: int| 0 <= j < at implies same_but_tempo(
                #[trigger] g.lanes[j],
                base.lanes[j],
            ) by {
                assert(g.lanes[j] == at_tempo(base, p.bpm).lanes[j]);
            }
        },
        None => {
            assert(s5 + s6 =~= s5);
            let g = with_last(base, l5);
            assert(g.lanes[at] == l5);
            assert forall|j: int| 0 <= j < at implies same_but_tempo(
                #[trigger] g.lanes[j],
                base.lanes[j],
            ) by {
                assert(g.lanes[j] == base.lanes[j]);
            }
        },
    }
    assert(slot_steps(inst, c, s) =~= s5 + s6);
}

// ---------------------------------------------------------------------------
// Groups
// ---------------------------------------------------------------------------

/// A graph with one more group.
spec fn with_last_group(base: GraphModel, b: GroupModel) -> GraphModel {
    GraphModel { groups: base.groups.push(b), ..base }
}

/// A group after a command that addresses it.
spec fn group_stepped(b: GroupModel, cmd: GraphCommand, channels: usize) -> GroupModel {
    match cmd {
        GraphCommand::SetGroupVolume { value, .. } => GroupModel { volume: value, ..b },
        GraphCommand::SetGroupPan { value, .. } => GroupModel { pan: value.clamped(), ..b },
        GraphCommand::InsertGroupEffect { index, effect, mix, .. } => if effect.outputs
            == channels {
            bus_effect_inserted(b, index, effect, mix)
        } else {
            b
        },
        GraphCommand::SetGroupParameter { index, param_index, value, .. } => GroupModel {
            modulators: rack_rebased(
                b.modulators,
                ModTargetKind::GroupBus { effect_index: index, param_index },
                value,
            ),
            ..b
        },
        _ => b,
    }
}

/// A command that changes group `at` alone.
spec fn names_group(cmd: GraphCommand, at: int) -> bool {
    match cmd {
        GraphCommand::SetGroupVolume { group, .. } => group == at,
        GraphCommand::SetGroupPan { group, .. } => group == at,
        GraphCommand::InsertGroupEffect { group, .. } => group == at,
        GraphCommand::SetGroupParameter { group, .. } => group == at,
        _ => false,
    }
}

/// All commands change group `at` alone.
spec fn all_name_group(cmds: Seq<GraphCommand>, at: int) -> bool {
    forall|k: int| 0 <= k < cmds.len() ==> names_group(#[trigger] cmds[k], at)
}

/// A group after commands that address it.
spec fn group_folded(b: GroupModel, cmds: Seq<GraphCommand>, channels: usize) -> GroupModel
    decreases cmds.len(),
{
    if cmds.len() == 0 {
        b
    } else {
        group_stepped(group_folded(b, cmds.drop_last(), channels), cmds.last(), channels)
    }
}

proof fn last_group_steps(
    base: GraphModel,
    b: GroupModel,
    cmd: GraphCommand,
    timing: PatternTiming,
)
    requires
        names_group(cmd, base.groups.len() as int),
    ensures
        step_done(with_last_group(base, b), step_of(cmd), timing) == with_last_group(
            base,
            group_stepped(b, cmd, base.num_channels),
        ),
        step_fits(with_last_group(base, b), step_of(cmd)),
{
    let last = base.groups.len() as int;
    let g = with_last_group(base, b);
    let after = with_last_group(base, group_stepped(b, cmd, base.num_channels));
    reveal(step_done);
    reveal(step_fits);
    assert(g.groups[last] == b);
    assert(g.groups.update(last, group_stepped(b, cmd, base.num_channels)) =~= after.groups);
    assert(graph_after(g, cmd, timing) =~= after);
}

proof fn group_fold_steps(
    base: GraphModel,
    b: GroupModel,
    cmds: Seq<GraphCommand>,
    timing: PatternTiming,
)
    requires
        all_name_group(cmds, base.groups.len() as int),
    ensures
        steps_done(with_last_group(base, b), step_list(cmds), timing) == with_last_group(
            base,
            group_folded(b, cmds, base.num_channels),
        ),
        steps_fit(with_last_group(base, b), step_list(cmds), timing),
    decreases cmds.len(),
{
    let steps = step_list(cmds);
    if cmds.len() > 0 {
        group_fold_steps(base, b, cmds.drop_last(), timing);
        assert(steps.drop_last() =~= step_list(cmds.drop_last()));
        assert(names_group(cmds.last(), base.groups.len() as int));
        last_group_steps(
            base,
            group_folded(b, cmds.drop_last(), base.num_channels),
            cmds.last(),
            timing,
        );
    }
}

proof fn group_folds_join(
    b: GroupModel,
    first: Seq<GraphCommand>,
    second: Seq<GraphCommand>,
    channels: usize,
)
    ensures
        group_folded(b, first + second, channels) == group_folded(
            group_folded(b, first, channels),
            second,
            channels,
        ),
    decreases second.len(),
{
    if second.len() == 0 {
        assert(first + second =~= first);
    } else {
        group_folds_join(b, first, second.drop_last(), channels);
        assert((first + second).drop_last() =~= first + second.drop_last());
    }
}

proof fn bus_overrides_fold(
    b: GroupModel,
    group: usize,
    index: usize,
    params: Seq<ParamModel>,
    settings: Seq<ParamSetting>,
    n: nat,
    channels: usize,
)
    requires
        b.modulators.len() == 0,
    ensures
        ({
            let cmds = override_commands(OverrideOwner::Bus { group, index }, params, settings, n);
            &&& group_folded(b, cmds, channels) == b
            &&& all_name_group(cmds, group as int)
        }),
    decreases n,
{
    let owner = OverrideOwner::Bus { group, index };
    if n > 0 {
        bus_overrides_fold(b, group, index, params, settings, (n - 1) as nat, channels);
        let rest = override_commands(owner, params, settings, (n - 1) as nat);
        let cmds = override_commands(owner, params, settings, n);
        if cmds.len() > rest.len() {
            assert(cmds.drop_last() =~= rest);
            assert(group_stepped(b, cmds.last(), channels).modulators =~= b.modulators);
            assert(group_stepped(b, cmds.last(), channels) =~= b);
        }
    }
}

proof fn bus_effects_fold(
    b: GroupModel,
    group: usize,
    configs: Seq<EffectConfig>,
    plugins: Seq<LoadedPlugin>,
    n: nat,
    channels: usize,
)
    requires
        n <= plugins.len() <= usize::MAX,
        b.modulators.len() == 0,
        b.effects.len() == 0,
        b.mix_values.len() == 0,
    ensures
        ({
            let cmds = bus_effect_commands(group, configs, plugins, n);
            &&& group_folded(b, cmds, channels) == (GroupModel {
                effects: effects_taken(plugins, channels, n),
                mix_values: mixes_taken(configs, plugins, channels, n),
                ..b
            })
            &&& all_name_group(cmds, group as int)
        }),
        effects_taken(plugins, channels, n).len() == mixes_taken(
            configs,
            plugins,
            channels,
            n,
        ).len() <= n,
    decreases n,
{
    if n == 0 {
        let cmds = bus_effect_commands(group, configs, plugins, 0);
        assert(group_folded(b, cmds, channels) =~= (GroupModel {
            effects: effects_taken(plugins, channels, 0),
            mix_values: mixes_taken(configs, plugins, channels, 0),
            ..b
        }));
    } else {
        let k = (n - 1) as nat;
        bus_effects_fold(b, group, configs, plugins, k, channels);
        let rest = bus_effect_commands(group, configs, plugins, k);
        let before = group_folded(b, rest, channels);
        let c = configs[n - 1];
        let p = plugins[n - 1];
        let insert = GraphCommand::InsertGroupEffect {
            group,
            index: (n - 1) as usize,
            effect: p.handle,
            mix: c.mix,
        };
        let after = GroupModel {
            effects: effects_taken(plugins, channels, n),
            mix_values: mixes_taken(configs, plugins, channels, n),
            ..b
        };
        assert(group_stepped(before, insert, channels) =~= after) by {
            if p.handle.outputs == channels {
                assert(before.effects.insert(before.effects.len() as int, p.handle)
                    =~= before.effects.push(p.handle));
                assert(before.mix_values.insert(before.mix_values.len() as int, c.mix)
                    =~= before.mix_values.push(c.mix));
            }
        }
        assert(rest.push(insert).drop_last() =~= rest);
        let params = crate::config::param_list(p.params@);
        let index = (n - 1) as usize;
        let overrides = override_commands(
            OverrideOwner::Bus { group, index },
            params,
            c.params@,
            c.params@.len(),
        );
        bus_overrides_fold(after, group, index, params, c.params@, c.params@.len(), channels);
        group_folds_join(b, rest.push(insert), overrides, channels);
    }
}

/// The bus of a group, ahead of its modulators.
spec fn bus_put(c: GroupConfig, plugins: Seq<LoadedPlugin>, channels: usize) -> GroupModel {
    GroupModel {
        effects: effects_taken(plugins, channels, plugins.len()),
        mix_values: mixes_taken(c.effects@, plugins, channels, plugins.len()),
        volume: if c.volume.off_unity() {
            c.volume
        } else {
            F32Bits { bits: ONE }
        },
        pan: if c.pan.off_zero() {
            c.pan.clamped()
        } else {
            F32Bits { bits: 0 }
        },
        modulators: Seq::empty(),
    }
}

proof fn bus_set_up(
    base: GraphModel,
    c: GroupConfig,
    plugins: Seq<LoadedPlugin>,
    timing: PatternTiming,
)
    requires
        base.groups.len() < usize::MAX,
        plugins.len() <= usize::MAX,
    ensures
        ({
            let steps = step_list(bus_commands(base.groups.len() as usize, c, plugins));
            &&& steps_done(base, steps, timing) == with_last_group(
                base,
                bus_put(c, plugins, base.num_channels),
            )
            &&& steps_fit(base, steps, timing)
        }),
{
    let group = base.groups.len() as usize;
    let channels = base.num_channels;
    let cmds = bus_commands(group, c, plugins);
    let heads = group_commands(group, c.volume, c.pan);
    let effects = bus_effect_commands(group, c.effects@, plugins, plugins.len());
    let add = GraphCommand::AddGroup;
    let first = seq![step_of(add)];
    let none = Seq::<SetupStep>::empty();
    assert(none.push(step_of(add)) =~= first);
    one_step(base, none, step_of(add), timing);
    assert(steps_done(base, first, timing) == with_last_group(base, fresh_group())
        && steps_fit(base, first, timing)) by {
        reveal(step_done);
        reveal(step_fits);
    }

    let volume = GraphCommand::SetGroupVolume { group, value: c.volume };
    let pan = GraphCommand::SetGroupPan { group, value: c.pan };
    let tail = heads.skip(1);
    let b0 = fresh_group();
    let b1 = group_folded(b0, tail, channels);
    let put = bus_put(c, plugins, channels);
    assert(b1 == (GroupModel { volume: put.volume, pan: put.pan, ..b0 })) by {
        let both = seq![volume, pan];
        assert(both.drop_last() =~= seq![volume]);
        assert(seq![volume].drop_last() =~= Seq::empty());
        assert(seq![pan].drop_last() =~= Seq::empty());
        assert(group_folded(b0, Seq::empty(), channels) == b0);
        assert(group_folded(b0, seq![volume], channels) == group_stepped(b0, volume, channels));
        assert(group_folded(b0, seq![pan], channels) == group_stepped(b0, pan, channels));
        if c.volume.off_unity() {
            if c.pan.off_zero() {
                assert(tail =~= both);
            } else {
                assert(tail =~= seq![volume]);
            }
        } else if c.pan.off_zero() {
            assert(tail =~= seq![pan]);
        } else {
            assert(tail =~= Seq::empty());
        }
    }
    bus_effects_fold(b1, group, c.effects@, plugins, plugins.len(), channels);
    group_folds_join(b0, tail, effects, channels);
    assert(group_folded(b0, tail + effects, channels) =~= put);
    group_fold_steps(base, b0, tail + effects, timing);
    steps_join(base, first, step_list(tail + effects), timing);
    assert(step_list(cmds) =~= first + step_list(tail + effects));
}

proof fn buses_set_up(
    start: GraphModel,
    groups: Seq<GroupConfig>,
    buses: Seq<Vec<LoadedPlugin>>,
    n: nat,
    timing: PatternTiming,
)
    requires
        start.groups.len() == 0,
        n <= buses.len() <= usize::MAX,
    ensures
        ({
            let g = steps_done(start, bus_steps(groups, buses, n), timing);
            &&& steps_fit(start, bus_steps(groups, buses, n), timing)
            &&& g.lanes == start.lanes
            &&& g.num_channels == start.num_channels
            &&& g.notifies == start.notifies
            &&& g.groups == Seq::new(
                n,
                |k: int| bus_put(groups[k], buses[k]@, start.num_channels),
            )
        }),
    decreases n,
{
    let channels = start.num_channels;
    let all = |m: nat| Seq::new(m, |k: int| bus_put(groups[k], buses[k]@, channels));
    if n == 0 {
        assert(all(0) =~= start.groups);
    } else {
        let k = (n - 1) as nat;
        buses_set_up(start, groups, buses, k, timing);
        let rest = bus_steps(groups, buses, k);
        let base = steps_done(start, rest, timing);
        let plugins = buses[n - 1]@;
        assert(plugins.len() <= usize::MAX) by {
            assert(buses[n - 1].len() == plugins.len());
        }
        bus_set_up(base, groups[n - 1], plugins, timing);
        let more = step_list(bus_commands((n - 1) as usize, groups[n - 1], plugins));
        steps_join(start, rest, more, timing);
        assert(all(n) =~= all(k).push(bus_put(groups[n - 1], plugins, channels)));
    }
}

proof fn lanes_set_up(
    start: GraphModel,
    instruments: Seq<InstrumentSlotConfig>,
    slots: Seq<LoadedSlot>,
    n: nat,
    timing: PatternTiming,
)
    requires
        start.lanes.len() == 0,
        still(start),
        n <= slots.len() <= usize::MAX,
        forall|i: int|
            0 <= i < slots.len() ==> slot_loaded(instruments[i], #[trigger] slots[i]),
    ensures
        ({
            let g = steps_done(start, lane_steps(instruments, slots, n), timing);
            &&& steps_fit(start, lane_steps(instruments, slots, n), timing)
            &&& g.groups == start.groups
            &&& g.num_channels == start.num_channels
            &&& g.lanes.len() == n
            &&& forall|i: int|
                0 <= i < n ==> lane_plays(
                    #[trigger] g.lanes[i],
                    instruments[i],
                    slots[i],
                    start.num_channels,
                    start.groups.len(),
                )
        }),
    decreases n,
{
    if n > 0 {
        let k = (n - 1) as nat;
        lanes_set_up(start, instruments, slots, k, timing);
        let rest = lane_steps(instruments, slots, k);
        let base = steps_done(start, rest, timing);
        let c = instruments[n - 1];
        let s = slots[n - 1];
        slot_set_up(base, c, s, timing);
        let more = slot_steps(k as usize, c, s);
        steps_join(start, rest, more, timing);
        let g = steps_done(base, more, timing);
        assert forall|i: int| 0 <= i < n implies lane_plays(
            #[trigger] g.lanes[i],
            instruments[i],
            slots[i],
            start.num_channels,
            start.groups.len(),
        ) by {
            if i < k {
                assert(same_but_tempo(g.lanes[i], base.lanes[i]));
                assert(lane_plays(
                    base.lanes[i],
                    instruments[i],
                    slots[i],
                    start.num_channels,
                    start.groups.len(),
                ));
            }
        }
    }
}

// ---------------------------------------------------------------------------
// Modulators of groups
// ---------------------------------------------------------------------------

/// A graph with other modulators in a group.
spec fn racked(g: GraphModel, k: int, mods: Seq<ModulatorModel>) -> GraphModel {
    GraphModel {
        groups: g.groups.update(k, GroupModel { modulators: mods, ..g.groups[k] }),
        ..g
    }
}

proof fn first_effect_kept(a: Seq<GroupModel>, b: Seq<GroupModel>, n: nat)
    requires
        n <= a.len() == b.len(),
        forall|k: int| 0 <= k < a.len() ==> (#[trigger] a[k]).effects == b[k].effects,
    ensures
        first_bus_effect(a, n) == first_bus_effect(b, n),
    decreases n,
{
    if n > 0 {
        first_effect_kept(a, b, (n - 1) as nat);
        assert(a[n - 1].effects == b[n - 1].effects);
    }
}

proof fn rate_kept(g: GraphModel, k: int, mods: Seq<ModulatorModel>)
    requires
        0 <= k < g.groups.len(),
    ensures
        graph_rate(racked(g, k, mods)) == graph_rate(g),
{
    first_effect_kept(racked(g, k, mods).groups, g.groups, g.groups.len());
}

/// One command on the rack of a group.
proof fn rack_steps(g: GraphModel, k: int, cmd: GraphCommand, timing: PatternTiming)
    requires
        0 <= k < g.groups.len(),
        match cmd {
            GraphCommand::InsertGroupModulator { group, .. } => group == k,
            GraphCommand::AddGroupModTarget { group, .. } => group == k,
            _ => false,
        },
    ensures
        step_fits(g, step_of(cmd)),
        step_done(g, step_of(cmd), timing) == racked(
            g,
            k,
            match cmd {
                GraphCommand::InsertGroupModulator { index, source, .. } => rack_commanded(
                    g.groups[k].modulators,
                    RackCommand::Insert { index, source },
                    graph_rate(g),
                ),
                GraphCommand::AddGroupModTarget { mod_index, target, .. } => rack_commanded(
                    g.groups[k].modulators,
                    RackCommand::AddTarget { mod_index, target },
                    graph_rate(g),
                ),
                _ => Seq::empty(),
            },
        ),
{
    reveal(step_done);
    reveal(step_fits);
}

proof fn group_modulator_steps(
    g: GraphModel,
    k: int,
    m: ModConfigModel,
    targets: Seq<ResolvedModel>,
    n: nat,
    timing: PatternTiming,
)
    requires
        0 <= k < g.groups.len() <= usize::MAX,
        g.groups[k].modulators.len() <= usize::MAX,
        n <= targets.len(),
    ensures
        ({
            let mods = g.groups[k].modulators;
            let cmds = modulator_commands(
                RackOwner::Group { group: k as usize },
                mods.len() as int,
                m,
                targets.take(n as int),
            );
            &&& steps_done(g, step_list(cmds), timing) == racked(
                g,
                k,
                mods.push(modulator_built(m, targets.take(n as int), graph_rate(g))),
            )
            &&& steps_fit(g, step_list(cmds), timing)
        }),
    decreases n,
{
    let owner = RackOwner::Group { group: k as usize };
    let mods = g.groups[k].modulators;
    let index = mods.len() as int;
    let ts = targets.take(n as int);
    let cmds = modulator_commands(owner, index, m, ts);
    let rate = graph_rate(g);
    let after = mods.push(modulator_built(m, ts, rate));
    if n == 0 {
        let insert = crate::loader::insert_command(owner, index as usize, config_source(m));
        let none = Seq::<SetupStep>::empty();
        assert(step_list(cmds) =~= none.push(step_of(insert)));
        one_step(g, none, step_of(insert), timing);
        rack_steps(g, k, insert, timing);
        assert(modulator_built(m, ts, rate).targets =~= Seq::empty());
        assert(fresh_modulator(config_source(m), rate) == modulator_built(m, ts, rate));
        assert(mods.insert(index, fresh_modulator(config_source(m), rate)) =~= after);
    } else {
        let before_ts = targets.take(n - 1);
        group_modulator_steps(g, k, m, targets, (n - 1) as nat, timing);
        let rest = modulator_commands(owner, index, m, before_ts);
        let last = target_command(owner, index as usize, graph_mod_target(targets[n - 1]));
        assert(step_list(cmds) =~= step_list(rest).push(step_of(last)));
        one_step(g, step_list(rest), step_of(last), timing);
        let built = modulator_built(m, before_ts, rate);
        let mid = racked(g, k, mods.push(built));
        rate_kept(g, k, mods.push(built));
        rack_steps(mid, k, last, timing);
        assert(mid.groups[k].modulators[index] == built);
        assert(built.targets.push(graph_mod_target(targets[n - 1])) =~= modulator_built(
            m,
            ts,
            rate,
        ).targets);
        assert(mods.push(built).update(index, modulator_built(m, ts, rate)) =~= after);
        assert(racked(mid, k, after).groups =~= racked(g, k, after).groups);
    }
}

/// The first `n` modulators of a group as they start.
pub open spec fn group_rack_built(
    mods: Seq<ModConfigModel>,
    chains: Seq<Seq<Seq<ParamModel>>>,
    racks: Seq<Seq<LoadedModel>>,
    bus: Seq<Seq<ParamModel>>,
    rate: F32Bits,
    n: nat,
) -> Seq<ModulatorModel> {
    Seq::new(
        n,
        |i: int|
            modulator_built(mods[i], group_mod_targets(mods[i], chains, racks, bus), rate),
    )
}

proof fn group_rack_steps(
    g: GraphModel,
    k: int,
    mods: Seq<ModConfigModel>,
    chains: Seq<Seq<Seq<ParamModel>>>,
    racks: Seq<Seq<LoadedModel>>,
    bus: Seq<Seq<ParamModel>>,
    n: nat,
    timing: PatternTiming,
)
    requires
        0 <= k < g.groups.len() <= usize::MAX,
        g.groups[k].modulators.len() == 0,
        n <= mods.len() <= usize::MAX,
    ensures
        ({
            let cmds = group_rack_commands(k as usize, mods, chains, racks, bus, n);
            &&& steps_done(g, step_list(cmds), timing) == racked(
                g,
                k,
                group_rack_built(mods, chains, racks, bus, graph_rate(g), n),
            )
            &&& steps_fit(g, step_list(cmds), timing)
        }),
    decreases n,
{
    let rate = graph_rate(g);
    let built = group_rack_built(mods, chains, racks, bus, rate, n);
    if n == 0 {
        assert(built =~= g.groups[k].modulators);
        assert(racked(g, k, built).groups =~= g.groups);
        assert(step_list(group_rack_commands(k as usize, mods, chains, racks, bus, 0))
            =~= Seq::empty());
    } else {
        let j = (n - 1) as nat;
        group_rack_steps(g, k, mods, chains, racks, bus, j, timing);
        let rest = group_rack_commands(k as usize, mods, chains, racks, bus, j);
        let before = group_rack_built(mods, chains, racks, bus, rate, j);
        let mid = racked(g, k, before);
        rate_kept(g, k, before);
        let targets = group_mod_targets(mods[n - 1], chains, racks, bus);
        assert(targets.take(targets.len() as int) =~= targets);
        group_modulator_steps(mid, k, mods[n - 1], targets, targets.len(), timing);
        let more = modulator_commands(
            RackOwner::Group { group: k as usize },
            n - 1,
            mods[n - 1],
            targets,
        );
        steps_join(g, step_list(rest), step_list(more), timing);
        let cmds = group_rack_commands(k as usize, mods, chains, racks, bus, n);
        assert(step_list(cmds) =~= step_list(rest) + step_list(more));
        assert(built =~= before.push(modulator_built(mods[n - 1], targets, rate)));
        assert(racked(mid, k, built).groups =~= racked(g, k, built).groups);
    }
}

/// The modulators of group `k` as they start.
pub open spec fn bus_rack_built(
    config: SessionConfig,
    slots: Seq<LoadedSlot>,
    buses: Seq<Vec<LoadedPlugin>>,
    k: int,
    rate: F32Bits,
) -> Seq<ModulatorModel> {
    let mods = mod_config_list(config.groups@[k].modulators@);
    group_rack_built(
        mods,
        member_chains(config.instruments@, slots, k as usize),
        member_racks(config.instruments@, slots, k as usize),
        plugin_params(buses[k]@),
        rate,
        mods.len(),
    )
}

/// A graph whose first `n` groups have their modulators.
spec fn racks_put(
    g: GraphModel,
    config: SessionConfig,
    slots: Seq<LoadedSlot>,
    buses: Seq<Vec<LoadedPlugin>>,
    n: nat,
) -> GraphModel {
    GraphModel {
        groups: Seq::new(
            g.groups.len(),
            |k: int|
                if k < n {
                    GroupModel {
                        modulators: bus_rack_built(config, slots, buses, k, graph_rate(g)),
                        ..g.groups[k]
                    }
                } else {
                    g.groups[k]
                },
        ),
        ..g
    }
}

proof fn racks_set_up(
    g: GraphModel,
    config: SessionConfig,
    slots: Seq<LoadedSlot>,
    buses: Seq<Vec<LoadedPlugin>>,
    n: nat,
    timing: PatternTiming,
)
    requires
        still(g),
        n <= g.groups.len() == config.groups@.len() <= usize::MAX,
    ensures
        steps_done(g, bus_rack_steps(config, slots, buses, n), timing) == racks_put(
            g,
            config,
            slots,
            buses,
            n,
        ),
        steps_fit(g, bus_rack_steps(config, slots, buses, n), timing),
        graph_rate(racks_put(g, config, slots, buses, n)) == graph_rate(g),
    decreases n,
{
    let after = racks_put(g, config, slots, buses, n);
    first_effect_kept(after.groups, g.groups, g.groups.len());
    if n == 0 {
        assert(after.groups =~= g.groups);
    } else {
        let k = n - 1;
        racks_set_up(g, config, slots, buses, k as nat, timing);
        let rest = bus_rack_steps(config, slots, buses, k as nat);
        let mid = racks_put(g, config, slots, buses, k as nat);
        let mods = mod_config_list(config.groups@[k].modulators@);
        assert(mods.len() <= usize::MAX) by {
            assert(config.groups@[k].modulators.len() == mods.len());
        }
        assert(mid.groups[k] == g.groups[k]);
        group_rack_steps(
            mid,
            k,
            mods,
            member_chains(config.instruments@, slots, k as usize),
            member_racks(config.instruments@, slots, k as usize),
            plugin_params(buses[k]@),
            mods.len(),
            timing,
        );
        let more = step_list(bus_rack_commands(config, slots, buses, k));
        steps_join(g, rest, more, timing);
        let built = bus_rack_built(config, slots, buses, k, graph_rate(g));
        assert(racked(mid, k, built).groups =~= after.groups);
    }
}

// ---------------------------------------------------------------------------
// The law
// ---------------------------------------------------------------------------

/// A group plays what its configuration says and what was loaded for it, apart
/// from its modulators.
pub open spec fn bus_plays(
    b: GroupModel,
    c: GroupConfig,
    plugins: Seq<LoadedPlugin>,
    channels: usize,
) -> bool {
    &&& b.volume == (if c.volume.off_unity() {
        c.volume
    } else {
        F32Bits { bits: ONE }
    })
    &&& b.pan == (if c.pan.off_zero() {
        c.pan.clamped()
    } else {
        F32Bits { bits: 0 }
    })
    &&& b.effects == effects_taken(plugins, channels, plugins.len())
    &&& b.mix_values == mixes_taken(c.effects@, plugins, channels, plugins.len())
}

/// Setting a session up fills an empty graph with just what the session says:
/// one lane for each instrument and one bus for each group, in order, with
/// their plugins, settings, memberships, patterns and modulators. The graph
/// takes every command on the way.
pub proof fn loaded_sessions_play(
    config: SessionConfig,
    slots: Seq<LoadedSlot>,
    buses: Seq<Vec<LoadedPlugin>>,
    commands: Seq<GraphCommand>,
    empty: GraphModel,
    timing: PatternTiming,
)
    requires
        session_loaded(config, slots, buses),
        step_list(commands) == session_steps(config, slots, buses),
        empty.lanes.len() == 0,
        empty.groups.len() == 0,
    ensures
        ({
            let g = graph_after_all(empty, commands, timing, commands.len());
            let channels = empty.num_channels;
            &&& g.lanes.len() == config.instruments@.len()
            &&& g.groups.len() == config.groups@.len()
            &&& forall|i: int|
                0 <= i < g.lanes.len() ==> lane_plays(
                    #[trigger] g.lanes[i],
                    config.instruments@[i],
                    slots[i],
                    channels,
                    g.groups.len(),
                )
            &&& forall|k: int|
                0 <= k < g.groups.len() ==> bus_plays(
                    #[trigger] g.groups[k],
                    config.groups@[k],
                    buses[k]@,
                    channels,
                )
            &&& forall|k: int|
                0 <= k < g.groups.len() ==> (#[trigger] g.groups[k]).modulators == bus_rack_built(
                    config,
                    slots,
                    buses,
                    k,
                    graph_rate(g),
                )
        }),
        forall|k: nat|
            k < commands.len() ==> #[trigger] command_fits(
                graph_after_all(empty, commands, timing, k),
                commands[k as int],
            ),
{
    assert(config.instruments.len() == slots.len());
    assert(config.groups.len() == buses.len());
    let a = bus_steps(config.groups@, buses, buses.len());
    let b = lane_steps(config.instruments@, slots, slots.len());
    let c = bus_rack_steps(config, slots, buses, buses.len());
    buses_set_up(empty, config.groups@, buses, buses.len(), timing);
    let g1 = steps_done(empty, a, timing);
    lanes_set_up(g1, config.instruments@, slots, slots.len(), timing);
    let g2 = steps_done(g1, b, timing);
    steps_join(empty, a, b, timing);
    racks_set_up(g2, config, slots, buses, buses.len(), timing);
    steps_join(empty, a + b, c, timing);
    let steps = step_list(commands);
    assert(steps.take(commands.len() as int) =~= steps);
    commands_are_steps(empty, commands, timing, commands.len());
    fits_are_steps(empty, commands, timing, commands.len());
}

} // verus!
