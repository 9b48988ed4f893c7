//! What loading a session sends to the graph, in order.

use vstd::prelude::*;

use crate::command::GraphCommand;
use crate::config::{
    chain_list, mod_config_list, param_list, EffectConfig, GroupConfig, InstrumentSlotConfig,
    ParamModel, ParameterInfo, PatternConfig, PluginConfig, SessionConfig,
};
use crate::lane::PluginHandle;
use crate::loader::{
    group_rack_commands, group_rack_shown, lane_entries, lane_fits, lane_modulators_fit,
    lane_rack_commands, lane_rack_shown, load_group_modulators, load_lane_modulators, loaded_list,
    member_chain_list, member_mod_list, LoadedModel, LoadedModulator,
};
use crate::pattern::PatternEvent;
use crate::remap::NoteRemapper;
use crate::scalar::F32Bits;
use crate::setup::{
    config_events, group_commands, group_members, group_setup, instrument_setup, lane_commands,
    lane_setup, member_indices, override_commands, override_unknown, override_values,
    param_overrides, pattern_settings, pattern_setup, swap_commands, transpose_command,
    transpose_setup, OverrideOwner,
};

verus! {

/// A plugin that is loaded and has its preset.
#[derive(Debug)]
pub struct LoadedPlugin {
    pub handle: PluginHandle,
    pub params: Vec<ParameterInfo>,
    /// The value of each parameter.
    pub baselines: Vec<F32Bits>,
}

/// An instrument that is loaded.
#[derive(Debug)]
pub struct LoadedInstrument {
    pub plugin: LoadedPlugin,
    pub remapper: Option<NoteRemapper>,
    /// The configured volume in single precision.
    pub gain: F32Bits,
}

/// All that is loaded for a lane.
#[derive(Debug)]
pub struct LoadedSlot {
    pub instrument: Option<LoadedInstrument>,
    pub effects: Vec<LoadedPlugin>,
    /// The length of the pattern at its own tempo, in samples.
    pub pattern_length: u64,
}

/// What a lane is loaded with is what its configuration names, and the indices
/// of its modulators stay in range.
pub open spec fn slot_loaded(c: InstrumentSlotConfig, s: LoadedSlot) -> bool {
    &&& c.instrument is Some == s.instrument is Some
    &&& c.effects@.len() == s.effects@.len()
    &&& lane_fits(c)
    &&& lane_entries(c, c.effects@.len()).len() <= usize::MAX
}

/// What a session is loaded with is what its configuration names.
pub open spec fn session_loaded(
    config: SessionConfig,
    slots: Seq<LoadedSlot>,
    buses: Seq<Vec<LoadedPlugin>>,
) -> bool {
    &&& config.instruments@.len() == slots.len()
    &&& config.groups@.len() == buses.len()
    &&& forall|i: int|
        0 <= i < slots.len() ==> slot_loaded(config.instruments@[i], #[trigger] slots[i])
    &&& forall|g: int|
        0 <= g < buses.len() ==> config.groups@[g].effects@.len() == (#[trigger] buses[g])@.len()
}

/// Whether a session is loaded with what its configuration names.
pub fn session_is_loaded(
    config: &SessionConfig,
    slots: &Vec<LoadedSlot>,
    buses: &Vec<Vec<LoadedPlugin>>,
) -> (ok: bool)
    ensures
        ok == session_loaded(*config, slots@, buses@),
{
    if config.instruments.len() != slots.len() || config.groups.len() != buses.len() {
        return false;
    }
    let mut i: usize = 0;
    while i < slots.len()
        invariant
            i <= slots.len(),
            config.instruments@.len() == slots@.len(),
            forall|k: int|
                0 <= k < i ==> slot_loaded(config.instruments@[k], #[trigger] slots@[k]),
        decreases slots.len() - i,
    {
        let c: &InstrumentSlotConfig = &config.instruments[i];
        let s: &LoadedSlot = &slots[i];
        let named: bool = c.instrument.is_some();
        let loaded: bool = s.instrument.is_some();
        if named != loaded || c.effects.len() != s.effects.len() || !lane_modulators_fit(c) {
            assert(!slot_loaded(config.instruments@[i as int], slots@[i as int]));
            return false;
        }
        i += 1;
    }
    let mut g: usize = 0;
    while g < buses.len()
        invariant
            g <= buses.len(),
            config.groups@.len() == buses@.len(),
            forall|k: int|
                0 <= k < g ==> config.groups@[k].effects@.len() == (#[trigger] buses@[k])@.len(),
        decreases buses.len() - g,
    {
        if config.groups[g].effects.len() != buses[g].len() {
            assert(config.groups@[g as int].effects@.len() != buses@[g as int]@.len());
            return false;
        }
        g += 1;
    }
    true
}

// ---------------------------------------------------------------------------
// Steps
// ---------------------------------------------------------------------------

/// A command, by what it says: of a pattern it is the events that count.
pub enum SetupStep {
    Plain { command: GraphCommand },
    Pattern {
        inst: usize,
        events: Seq<PatternEvent>,
        length_samples: u64,
        base_note: Option<u8>,
        in_key: bool,
    },
}

/// What a command says.
pub open spec fn step_of(command: GraphCommand) -> SetupStep {
    match command {
        GraphCommand::SetPattern { inst, pattern, base_note, in_key } => SetupStep::Pattern {
            inst,
            events: pattern.events@,
            length_samples: pattern.length_samples,
            base_note,
            in_key,
        },
        _ => SetupStep::Plain { command },
    }
}

/// What commands say, in order.
pub open spec fn step_list(commands: Seq<GraphCommand>) -> Seq<SetupStep> {
    Seq::new(commands.len(), |i: int| step_of(commands[i]))
}

/// Lists of lists, as sequences.
pub open spec fn lists<T>(v: Seq<Vec<T>>) -> Seq<Seq<T>> {
    Seq::new(v.len(), |i: int| v[i]@)
}

fn extend(commands: &mut Vec<GraphCommand>, more: Vec<GraphCommand>)
    ensures
        final(commands)@ == old(commands)@ + more@,
        step_list(final(commands)@) == step_list(old(commands)@) + step_list(more@),
{
    let ghost before = commands@;
    let ghost added = more@;
    let mut more = more;
    commands.append(&mut more);
    assert(step_list(commands@) =~= step_list(before) + step_list(added));
}

// ---------------------------------------------------------------------------
// Groups
// ---------------------------------------------------------------------------

/// The parameters of plugins.
pub open spec fn plugin_params(plugins: Seq<LoadedPlugin>) -> Seq<Seq<ParamModel>> {
    Seq::new(plugins.len(), |i: int| param_list(plugins[i].params@))
}

/// The commands for the first `n` effects of a bus: each is inserted, then its
/// parameters are set.
pub open spec fn bus_effect_commands(
    group: usize,
    configs: Seq<EffectConfig>,
    plugins: Seq<LoadedPlugin>,
    n: nat,
) -> Seq<GraphCommand>
    decreases n,
{
    if n == 0 {
        Seq::empty()
    } else {
        let index = (n - 1) as usize;
        let c = configs[n - 1];
        let p = plugins[n - 1];
        bus_effect_commands(group, configs, plugins, (n - 1) as nat).push(
            GraphCommand::InsertGroupEffect { group, index, effect: p.handle, mix: c.mix },
        ) + override_commands(
            OverrideOwner::Bus { group, index },
            param_list(p.params@),
            c.params@,
            c.params@.len(),
        )
    }
}

/// The values of effects with their parameters set.
pub open spec fn effect_values(configs: Seq<EffectConfig>, plugins: Seq<LoadedPlugin>) -> Seq<
    Seq<F32Bits>,
> {
    Seq::new(
        plugins.len(),
        |i: int|
            override_values(
                param_list(plugins[i].params@),
                plugins[i].baselines@,
                configs[i].params@,
                configs[i].params@.len(),
            ),
    )
}

/// The settings of effects that name no parameter.
pub open spec fn effect_unknown(configs: Seq<EffectConfig>, plugins: Seq<LoadedPlugin>) -> Seq<
    Seq<usize>,
> {
    Seq::new(
        plugins.len(),
        |i: int|
            override_unknown(
                param_list(plugins[i].params@),
                configs[i].params@,
                configs[i].params@.len(),
            ),
    )
}

/// The commands that set a group and its bus up.
pub open spec fn bus_commands(group: usize, c: GroupConfig, plugins: Seq<LoadedPlugin>) -> Seq<
    GraphCommand,
> {
    group_commands(group, c.volume, c.pan) + bus_effect_commands(
        group,
        c.effects@,
        plugins,
        plugins.len(),
    )
}

/// What is known of a group once it is loaded.
#[derive(Debug)]
pub struct GroupParts {
    /// Parameters of each bus effect.
    pub chain: Vec<Vec<ParameterInfo>>,
    /// Values of those parameters.
    pub values: Vec<Vec<F32Bits>>,
    pub modulators: Vec<LoadedModulator>,
}

/// Set a group and its bus up; modulators come later.
fn bus_setup(group: usize, c: &GroupConfig, plugins: Vec<LoadedPlugin>) -> (r: (
    Vec<GraphCommand>,
    GroupParts,
))
    requires
        c.effects@.len() == plugins@.len(),
    ensures
        r.0@ == bus_commands(group, *c, plugins@),
        chain_list(r.1.chain@) == plugin_params(plugins@),
        lists(r.1.values@) == effect_values(c.effects@, plugins@),
        r.1.modulators@.len() == 0,
{
    let ghost all = plugins@;
    let count: usize = plugins.len();
    let ghost head = group_commands(group, c.volume, c.pan);
    let mut commands = group_setup(group, c.volume, c.pan);
    let mut chain: Vec<Vec<ParameterInfo>> = Vec::new();
    let mut values: Vec<Vec<F32Bits>> = Vec::new();
    let mut index: usize = 0;
    assert(commands@ =~= head + bus_effect_commands(group, c.effects@, all, 0));
    assert(chain_list(chain@) =~= plugin_params(all).take(0));
    assert(lists(values@) =~= effect_values(c.effects@, all).take(0));
    for p in it: plugins
        invariant
            it.seq() == all,
            count == all.len(),
            c.effects@.len() == all.len(),
            index == it.index(),
            head == group_commands(group, c.volume, c.pan),
            commands@ == head + bus_effect_commands(group, c.effects@, all, index as nat),
            chain_list(chain@) == plugin_params(all).take(index as int),
            lists(values@) == effect_values(c.effects@, all).take(index as int),
    {
        let ghost k = index as int;
        assert(p == all[k]);
        let ghost chain_before = chain@;
        let ghost values_before = values@;
        let effect: &EffectConfig = &c.effects[index];
        commands.push(
            GraphCommand::InsertGroupEffect {
                group,
                index,
                effect: p.handle,
                mix: effect.mix,
            },
        );
        let owner = OverrideOwner::Bus { group, index };
        let o = param_overrides(owner, &p.params, &p.baselines, &effect.params);
        extend(&mut commands, o.commands);
        assert(commands@ =~= head + bus_effect_commands(group, c.effects@, all, (k + 1) as nat));
        values.push(o.values);
        assert(lists(values@) =~= lists(values_before).push(o.values@));
        assert(lists(values@) =~= effect_values(c.effects@, all).take(k + 1));
        chain.push(p.params);
        assert(chain_list(chain@) =~= chain_list(chain_before).push(param_list(p.params@)));
        assert(chain_list(chain@) =~= plugin_params(all).take(k + 1));
        index += 1;
    }
    assert(plugin_params(all).take(all.len() as int) =~= plugin_params(all));
    assert(effect_values(c.effects@, all).take(all.len() as int) =~= effect_values(c.effects@, all));
    (commands, GroupParts { chain, values, modulators: Vec::new() })
}

// ---------------------------------------------------------------------------
// Lanes
// ---------------------------------------------------------------------------

/// The commands that put the instrument into its lane, if there is one, and
/// set its parameters.
pub open spec fn instrument_commands(
    inst: usize,
    c: Option<PluginConfig>,
    s: Option<LoadedInstrument>,
) -> Seq<GraphCommand> {
    match (c, s) {
        (Some(c), Some(s)) => swap_commands(
            inst,
            s.plugin.handle,
            s.remapper,
            c.volume,
            s.gain,
        ) + override_commands(
            OverrideOwner::Chain { inst, slot: 0 },
            param_list(s.plugin.params@),
            c.params@,
            c.params@.len(),
        ),
        _ => Seq::empty(),
    }
}

/// The commands for the first `n` effects of a lane: each is inserted, then its
/// parameters are set.
pub open spec fn lane_effect_commands(
    inst: usize,
    configs: Seq<EffectConfig>,
    plugins: Seq<LoadedPlugin>,
    n: nat,
) -> Seq<GraphCommand>
    decreases n,
{
    if n == 0 {
        Seq::empty()
    } else {
        let c = configs[n - 1];
        let p = plugins[n - 1];
        lane_effect_commands(inst, configs, plugins, (n - 1) as nat).push(
            GraphCommand::InsertEffect {
                inst,
                index: (n - 1) as usize,
                effect: p.handle,
                mix: c.mix,
            },
        ) + override_commands(
            OverrideOwner::Chain { inst, slot: n as usize },
            param_list(p.params@),
            c.params@,
            c.params@.len(),
        )
    }
}

/// The parameters of a lane's chain, by slot.
pub open spec fn slot_chain(s: LoadedSlot) -> Seq<Seq<ParamModel>> {
    seq![
        match s.instrument {
            Some(i) => param_list(i.plugin.params@),
            None => Seq::empty(),
        },
    ] + plugin_params(s.effects@)
}

/// The values of a lane's chain, by slot.
pub open spec fn slot_values(c: InstrumentSlotConfig, s: LoadedSlot) -> Seq<Seq<F32Bits>> {
    seq![
        match (c.instrument, s.instrument) {
            (Some(c), Some(s)) => override_values(
                param_list(s.plugin.params@),
                s.plugin.baselines@,
                c.params@,
                c.params@.len(),
            ),
            _ => Seq::empty(),
        },
    ] + effect_values(c.effects@, s.effects@)
}

/// The settings of a lane's chain that name no parameter, by slot.
pub open spec fn slot_unknown(c: InstrumentSlotConfig, s: LoadedSlot) -> Seq<Seq<usize>> {
    seq![
        match (c.instrument, s.instrument) {
            (Some(c), Some(s)) => override_unknown(
                param_list(s.plugin.params@),
                c.params@,
                c.params@.len(),
            ),
            _ => Seq::empty(),
        },
    ] + effect_unknown(c.effects@, s.effects@)
}

/// The commands that set the modulators of a lane up.
pub open spec fn slot_rack_commands(
    inst: usize,
    c: InstrumentSlotConfig,
    s: LoadedSlot,
) -> Seq<GraphCommand> {
    let entries = lane_entries(c, c.effects@.len());
    lane_rack_commands(inst, entries, slot_chain(s), entries.len())
}

/// What is shown of the modulators of a lane.
pub open spec fn slot_shown(c: InstrumentSlotConfig, s: LoadedSlot) -> Seq<LoadedModel> {
    let entries = lane_entries(c, c.effects@.len());
    lane_rack_shown(entries, slot_chain(s), entries.len())
}

/// The command that transposes a lane, if there is one.
pub open spec fn transpose_commands(inst: usize, semitones: i8) -> Seq<GraphCommand> {
    match transpose_command(inst, semitones) {
        Some(command) => seq![command],
        None => Seq::empty(),
    }
}

/// The steps that put the pattern into its lane, if there is one.
pub open spec fn pattern_steps(
    inst: usize,
    pattern: Option<PatternConfig>,
    length_samples: u64,
) -> Seq<SetupStep> {
    match pattern {
        Some(p) => seq![
            SetupStep::Pattern {
                inst,
                events: config_events(p.events@),
                length_samples,
                base_note: p.base_note,
                in_key: p.in_key,
            },
        ] + step_list(pattern_settings(inst, p)),
        None => Seq::empty(),
    }
}

/// The steps that set a lane up: the lane, its instrument, its effects, its
/// modulators, its transposition and its pattern.
pub open spec fn slot_steps(inst: usize, c: InstrumentSlotConfig, s: LoadedSlot) -> Seq<SetupStep> {
    step_list(lane_commands(inst, c.range, c.group)) + step_list(
        instrument_commands(inst, c.instrument, s.instrument),
    ) + step_list(
        lane_effect_commands(inst, c.effects@, s.effects@, s.effects@.len()),
    ) + step_list(slot_rack_commands(inst, c, s)) + step_list(
        transpose_commands(inst, c.transpose),
    ) + pattern_steps(inst, c.pattern, s.pattern_length)
}

/// What is known of a lane once it is loaded.
#[derive(Debug)]
pub struct LaneParts {
    /// Parameters of each plugin, by slot.
    pub chain: Vec<Vec<ParameterInfo>>,
    /// Values of those parameters.
    pub values: Vec<Vec<F32Bits>>,
    /// Settings that name no parameter, by slot.
    pub unknown: Vec<Vec<usize>>,
    pub modulators: Vec<LoadedModulator>,
}

/// The instrument of a lane.
fn add_instrument(
    inst: usize,
    c: &Option<PluginConfig>,
    s: Option<LoadedInstrument>,
    commands: &mut Vec<GraphCommand>,
    parts: &mut LaneParts,
)
    requires
        *c is Some == s is Some,
        old(parts).chain@.len() == 0,
        old(parts).values@.len() == 0,
        old(parts).unknown@.len() == 0,
    ensures
        step_list(final(commands)@) == step_list(old(commands)@) + step_list(
            instrument_commands(inst, *c, s),
        ),
        chain_list(final(parts).chain@) == seq![
            match s {
                Some(s) => param_list(s.plugin.params@),
                None => Seq::empty(),
            },
        ],
        lists(final(parts).values@) == seq![
            match (*c, s) {
                (Some(c), Some(s)) => override_values(
                    param_list(s.plugin.params@),
                    s.plugin.baselines@,
                    c.params@,
                    c.params@.len(),
                ),
                _ => Seq::empty(),
            },
        ],
        lists(final(parts).unknown@) == seq![
            match (*c, s) {
                (Some(c), Some(s)) => override_unknown(
                    param_list(s.plugin.params@),
                    c.params@,
                    c.params@.len(),
                ),
                _ => Seq::empty(),
            },
        ],
        final(parts).modulators == old(parts).modulators,
{
    let ghost before = commands@;
    let ghost loaded = s;
    match (c, s) {
        (Some(c), Some(s)) => {
            let swap = instrument_setup(inst, s.plugin.handle, s.remapper, c.volume, s.gain);
            extend(commands, swap);
            let owner = OverrideOwner::Chain { inst, slot: 0 };
            let o = param_overrides(owner, &s.plugin.params, &s.plugin.baselines, &c.params);
            extend(commands, o.commands);
            parts.values.push(o.values);
            parts.unknown.push(o.unknown);
            parts.chain.push(s.plugin.params);
            assert(commands@ =~= before + instrument_commands(inst, Some(*c), loaded));
        },
        _ => {
            parts.values.push(Vec::new());
            parts.unknown.push(Vec::new());
            parts.chain.push(Vec::new());
            assert(commands@ =~= before + instrument_commands(inst, *c, loaded));
            assert(param_list(parts.chain@[0]@) =~= Seq::empty());
        },
    }
    assert(step_list(commands@) =~= step_list(before) + step_list(
        instrument_commands(inst, *c, loaded),
    ));
}

/// The effects of a lane.
fn add_effects(
    inst: usize,
    configs: &Vec<EffectConfig>,
    plugins: Vec<LoadedPlugin>,
    commands: &mut Vec<GraphCommand>,
    parts: &mut LaneParts,
)
    requires
        configs@.len() == plugins@.len(),
    ensures
        step_list(final(commands)@) == step_list(old(commands)@) + step_list(
            lane_effect_commands(inst, configs@, plugins@, plugins@.len()),
        ),
        chain_list(final(parts).chain@) == chain_list(old(parts).chain@) + plugin_params(plugins@),
        lists(final(parts).values@) == lists(old(parts).values@) + effect_values(
            configs@,
            plugins@,
        ),
        lists(final(parts).unknown@) == lists(old(parts).unknown@) + effect_unknown(
            configs@,
            plugins@,
        ),
        final(parts).modulators == old(parts).modulators,
{
    let ghost all = plugins@;
    let count: usize = plugins.len();
    let ghost before = commands@;
    let ghost chain_before = chain_list(parts.chain@);
    let ghost values_before = lists(parts.values@);
    let ghost unknown_before = lists(parts.unknown@);
    let ghost modulators = parts.modulators;
    let mut index: usize = 0;
    assert(commands@ =~= before + lane_effect_commands(inst, configs@, all, 0));
    assert(chain_before =~= chain_before + plugin_params(all).take(0));
    assert(values_before =~= values_before + effect_values(configs@, all).take(0));
    assert(unknown_before =~= unknown_before + effect_unknown(configs@, all).take(0));
    for p in it: plugins
        invariant
            it.seq() == all,
            count == all.len(),
            configs@.len() == all.len(),
            index == it.index(),
            commands@ == before + lane_effect_commands(inst, configs@, all, index as nat),
            chain_list(parts.chain@) == chain_before + plugin_params(all).take(index as int),
            lists(parts.values@) == values_before + effect_values(configs@, all).take(
                index as int,
            ),
            lists(parts.unknown@) == unknown_before + effect_unknown(configs@, all).take(
                index as int,
            ),
            parts.modulators == modulators,
    {
        let ghost k = index as int;
        assert(p == all[k]);
        let ghost chain_done = parts.chain@;
        let ghost values_done = parts.values@;
        let ghost unknown_done = parts.unknown@;
        let effect: &EffectConfig = &configs[index];
        commands.push(
            GraphCommand::InsertEffect { inst, index, effect: p.handle, mix: effect.mix },
        );
        let owner = OverrideOwner::Chain { inst, slot: index + 1 };
        let o = param_overrides(owner, &p.params, &p.baselines, &effect.params);
        extend(commands, o.commands);
        assert(commands@ =~= before + lane_effect_commands(inst, configs@, all, (k + 1) as nat));
        parts.values.push(o.values);
        assert(lists(parts.values@) =~= lists(values_done).push(o.values@));
        assert(lists(parts.values@) =~= values_before + effect_values(configs@, all).take(k + 1));
        parts.unknown.push(o.unknown);
        assert(lists(parts.unknown@) =~= lists(unknown_done).push(o.unknown@));
        assert(lists(parts.unknown@) =~= unknown_before + effect_unknown(configs@, all).take(
            k + 1,
        ));
        parts.chain.push(p.params);
        assert(chain_list(parts.chain@) =~= chain_list(chain_done).push(param_list(p.params@)));
        assert(chain_list(parts.chain@) =~= chain_before + plugin_params(all).take(k + 1));
        index += 1;
    }
    assert(plugin_params(all).take(all.len() as int) =~= plugin_params(all));
    assert(effect_values(configs@, all).take(all.len() as int) =~= effect_values(configs@, all));
    assert(effect_unknown(configs@, all).take(all.len() as int) =~= effect_unknown(configs@, all));
    assert(step_list(commands@) =~= step_list(before) + step_list(
        lane_effect_commands(inst, configs@, all, all.len()),
    ));
}

/// Set a lane up.
fn slot_setup(inst: usize, c: &InstrumentSlotConfig, s: LoadedSlot) -> (r: (
    Vec<GraphCommand>,
    LaneParts,
))
    requires
        slot_loaded(*c, s),
    ensures
        step_list(r.0@) == slot_steps(inst, *c, s),
        chain_list(r.1.chain@) == slot_chain(s),
        lists(r.1.values@) == slot_values(*c, s),
        lists(r.1.unknown@) == slot_unknown(*c, s),
        loaded_list(r.1.modulators@) == slot_shown(*c, s),
{
    let ghost loaded = s;
    let mut commands = lane_setup(inst, c.range, c.group);
    let mut parts = LaneParts {
        chain: Vec::new(),
        values: Vec::new(),
        unknown: Vec::new(),
        modulators: Vec::new(),
    };
    add_instrument(inst, &c.instrument, s.instrument, &mut commands, &mut parts);
    add_effects(inst, &c.effects, s.effects, &mut commands, &mut parts);
    assert(chain_list(parts.chain@) =~= slot_chain(loaded));
    let rack = load_lane_modulators(c, &parts.chain, inst);
    extend(&mut commands, rack.commands);
    parts.modulators = rack.modulators;
    let ghost done = step_list(commands@);
    match transpose_setup(inst, c.transpose) {
        Some(command) => {
            let ghost pushed = commands@;
            commands.push(command);
            assert(step_list(commands@) =~= step_list(pushed) + step_list(seq![command]));
        },
        None => {
            assert(done =~= done + step_list(Seq::empty()));
        },
    }
    let ghost moved = step_list(commands@);
    match &c.pattern {
        Some(p) => {
            let more = pattern_setup(inst, p, s.pattern_length);
            assert(step_list(more@) =~= pattern_steps(inst, c.pattern, loaded.pattern_length)) by {
                assert forall|k: int| 0 < k < more@.len() implies step_of(#[trigger] more@[k])
                    == step_list(pattern_settings(inst, *p))[k - 1] by {
                    assert(more@[k] == more@.skip(1)[k - 1]);
                }
            }
            extend(&mut commands, more);
        },
        None => {
            assert(moved =~= moved + pattern_steps(inst, c.pattern, loaded.pattern_length));
        },
    }
    assert(step_list(commands@) =~= slot_steps(inst, *c, loaded));
    assert(lists(parts.values@) =~= slot_values(*c, loaded));
    assert(lists(parts.unknown@) =~= slot_unknown(*c, loaded));
    (commands, parts)
}

// ---------------------------------------------------------------------------
// The whole session
// ---------------------------------------------------------------------------

/// The steps that set the first `n` groups up.
pub open spec fn bus_steps(
    groups: Seq<GroupConfig>,
    buses: Seq<Vec<LoadedPlugin>>,
    n: nat,
) -> Seq<SetupStep>
    decreases n,
{
    if n == 0 {
        Seq::empty()
    } else {
        bus_steps(groups, buses, (n - 1) as nat) + step_list(
            bus_commands((n - 1) as usize, groups[n - 1], buses[n - 1]@),
        )
    }
}

/// The steps that set the first `n` lanes up.
pub open spec fn lane_steps(
    instruments: Seq<InstrumentSlotConfig>,
    slots: Seq<LoadedSlot>,
    n: nat,
) -> Seq<SetupStep>
    decreases n,
{
    if n == 0 {
        Seq::empty()
    } else {
        lane_steps(instruments, slots, (n - 1) as nat) + slot_steps(
            (n - 1) as usize,
            instruments[n - 1],
            slots[n - 1],
        )
    }
}

/// The memberships that lanes are configured with.
pub open spec fn config_memberships(instruments: Seq<InstrumentSlotConfig>) -> Seq<Option<usize>> {
    Seq::new(instruments.len(), |i: int| instruments[i].group)
}

/// The members of a group, by lane.
pub open spec fn config_members(instruments: Seq<InstrumentSlotConfig>, group: usize) -> Seq<usize> {
    member_indices(config_memberships(instruments), group, instruments.len())
}

/// The chains of a group's members.
pub open spec fn member_chains(
    instruments: Seq<InstrumentSlotConfig>,
    slots: Seq<LoadedSlot>,
    group: usize,
) -> Seq<Seq<Seq<ParamModel>>> {
    let members = config_members(instruments, group);
    Seq::new(members.len(), |k: int| slot_chain(slots[members[k] as int]))
}

/// What is shown of the modulators of a group's members.
pub open spec fn member_racks(
    instruments: Seq<InstrumentSlotConfig>,
    slots: Seq<LoadedSlot>,
    group: usize,
) -> Seq<Seq<LoadedModel>> {
    let members = config_members(instruments, group);
    Seq::new(
        members.len(),
        |k: int| slot_shown(instruments[members[k] as int], slots[members[k] as int]),
    )
}

/// The commands that set the modulators of group `g` up.
pub open spec fn bus_rack_commands(
    config: SessionConfig,
    slots: Seq<LoadedSlot>,
    buses: Seq<Vec<LoadedPlugin>>,
    g: int,
) -> Seq<GraphCommand> {
    let mods = mod_config_list(config.groups@[g].modulators@);
    group_rack_commands(
        g as usize,
        mods,
        member_chains(config.instruments@, slots, g as usize),
        member_racks(config.instruments@, slots, g as usize),
        plugin_params(buses[g]@),
        mods.len(),
    )
}

/// What is shown of the modulators of group `g`.
pub open spec fn bus_rack_shown(
    config: SessionConfig,
    slots: Seq<LoadedSlot>,
    buses: Seq<Vec<LoadedPlugin>>,
    g: int,
) -> Seq<LoadedModel> {
    let mods = mod_config_list(config.groups@[g].modulators@);
    group_rack_shown(
        mods,
        member_chains(config.instruments@, slots, g as usize),
        member_racks(config.instruments@, slots, g as usize),
        plugin_params(buses[g]@),
        mods.len(),
    )
}

/// The steps that set the modulators of the first `n` groups up.
pub open spec fn bus_rack_steps(
    config: SessionConfig,
    slots: Seq<LoadedSlot>,
    buses: Seq<Vec<LoadedPlugin>>,
    n: nat,
) -> Seq<SetupStep>
    decreases n,
{
    if n == 0 {
        Seq::empty()
    } else {
        bus_rack_steps(config, slots, buses, (n - 1) as nat) + step_list(
            bus_rack_commands(config, slots, buses, n - 1),
        )
    }
}

/// The steps that set a session up. Groups come first, so that lanes can join
/// them; the modulators of groups come last, once the chains and modulators of
/// all members are known.
pub open spec fn session_steps(
    config: SessionConfig,
    slots: Seq<LoadedSlot>,
    buses: Seq<Vec<LoadedPlugin>>,
) -> Seq<SetupStep> {
    bus_steps(config.groups@, buses, buses.len()) + lane_steps(
        config.instruments@,
        slots,
        slots.len(),
    ) + bus_rack_steps(config, slots, buses, buses.len())
}

/// A session that is ready to play.
#[derive(Debug)]
pub struct SessionSetup {
    /// What to send to the graph, in order.
    pub commands: Vec<GraphCommand>,
    pub lanes: Vec<LaneParts>,
    pub groups: Vec<GroupParts>,
}

/// What is known of a loaded lane.
pub open spec fn lane_known(parts: LaneParts, c: InstrumentSlotConfig, s: LoadedSlot) -> bool {
    &&& chain_list(parts.chain@) == slot_chain(s)
    &&& lists(parts.values@) == slot_values(c, s)
    &&& lists(parts.unknown@) == slot_unknown(c, s)
    &&& loaded_list(parts.modulators@) == slot_shown(c, s)
}

/// What is known of a loaded group, apart from its modulators.
pub open spec fn group_known(parts: GroupParts, c: GroupConfig, plugins: Seq<LoadedPlugin>) -> bool {
    &&& chain_list(parts.chain@) == plugin_params(plugins)
    &&& lists(parts.values@) == effect_values(c.effects@, plugins)
}

/// The groups of a session.
fn add_groups(
    configs: &Vec<GroupConfig>,
    buses: Vec<Vec<LoadedPlugin>>,
    commands: &mut Vec<GraphCommand>,
) -> (groups: Vec<GroupParts>)
    requires
        configs@.len() == buses@.len(),
        forall|g: int|
            0 <= g < buses@.len() ==> configs@[g].effects@.len() == (#[trigger] buses@[g])@.len(),
    ensures
        step_list(final(commands)@) == step_list(old(commands)@) + bus_steps(
            configs@,
            buses@,
            buses@.len(),
        ),
        groups@.len() == buses@.len(),
        forall|g: int|
            0 <= g < buses@.len() ==> group_known(#[trigger] groups@[g], configs@[g], buses@[g]@)
                && groups@[g].modulators@.len() == 0,
{
    let ghost all = buses@;
    let count: usize = buses.len();
    let ghost before = step_list(commands@);
    let mut groups: Vec<GroupParts> = Vec::new();
    let mut g: usize = 0;
    assert(before =~= before + bus_steps(configs@, all, 0));
    for plugins in it: buses
        invariant
            it.seq() == all,
            count == all.len(),
            configs@.len() == all.len(),
            forall|k: int|
                0 <= k < all.len() ==> configs@[k].effects@.len() == (#[trigger] all[k])@.len(),
            g == it.index(),
            groups@.len() == g,
            step_list(commands@) == before + bus_steps(configs@, all, g as nat),
            forall|k: int|
                0 <= k < g ==> group_known(#[trigger] groups@[k], configs@[k], all[k]@)
                    && groups@[k].modulators@.len() == 0,
    {
        assert(plugins == all[g as int]);
        let (more, parts) = bus_setup(g, &configs[g], plugins);
        extend(commands, more);
        assert(step_list(commands@) =~= before + bus_steps(configs@, all, (g + 1) as nat));
        groups.push(parts);
        g += 1;
    }
    groups
}

/// The lanes of a session.
fn add_lanes(
    configs: &Vec<InstrumentSlotConfig>,
    slots: Vec<LoadedSlot>,
    commands: &mut Vec<GraphCommand>,
) -> (lanes: Vec<LaneParts>)
    requires
        configs@.len() == slots@.len(),
        forall|i: int| 0 <= i < slots@.len() ==> slot_loaded(configs@[i], #[trigger] slots@[i]),
    ensures
        step_list(final(commands)@) == step_list(old(commands)@) + lane_steps(
            configs@,
            slots@,
            slots@.len(),
        ),
        lanes@.len() == slots@.len(),
        forall|i: int|
            0 <= i < slots@.len() ==> lane_known(#[trigger] lanes@[i], configs@[i], slots@[i]),
{
    let ghost all = slots@;
    let count: usize = slots.len();
    let ghost before = step_list(commands@);
    let mut lanes: Vec<LaneParts> = Vec::new();
    let mut i: usize = 0;
    assert(before =~= before + lane_steps(configs@, all, 0));
    for s in it: slots
        invariant
            it.seq() == all,
            count == all.len(),
            configs@.len() == all.len(),
            forall|k: int| 0 <= k < all.len() ==> slot_loaded(configs@[k], #[trigger] all[k]),
            i == it.index(),
            lanes@.len() == i,
            step_list(commands@) == before + lane_steps(configs@, all, i as nat),
            forall|k: int|
                0 <= k < i ==> lane_known(#[trigger] lanes@[k], configs@[k], all[k]),
    {
        assert(s == all[i as int]);
        let (more, parts) = slot_setup(i, &configs[i], s);
        extend(commands, more);
        assert(step_list(commands@) =~= before + lane_steps(configs@, all, (i + 1) as nat));
        lanes.push(parts);
        i += 1;
    }
    lanes
}

/// The modulators of group `g`, whose members are lanes.
fn load_group_rack(
    config: &SessionConfig,
    memberships: &Vec<Option<usize>>,
    g: usize,
    lanes: &Vec<LaneParts>,
    bus: &Vec<Vec<ParameterInfo>>,
    Ghost(slots): Ghost<Seq<LoadedSlot>>,
    Ghost(buses): Ghost<Seq<Vec<LoadedPlugin>>>,
) -> (r: (Vec<GraphCommand>, Vec<LoadedModulator>))
    requires
        memberships@ == config_memberships(config.instruments@),
        g < config.groups@.len(),
        lanes@.len() == slots.len() == config.instruments@.len(),
        forall|i: int|
            0 <= i < slots.len() ==> lane_known(
                #[trigger] lanes@[i],
                config.instruments@[i],
                slots[i],
            ),
        chain_list(bus@) == plugin_params(buses[g as int]@),
    ensures
        r.0@ == bus_rack_commands(*config, slots, buses, g as int),
        loaded_list(r.1@) == bus_rack_shown(*config, slots, buses, g as int),
{
    let members = group_members(memberships, g);
    let count: usize = memberships.len();
    proof {
        members_are_lanes(memberships@, g, count as nat);
    }
    let mut chains: Vec<&Vec<Vec<ParameterInfo>>> = Vec::new();
    let mut racks: Vec<&[LoadedModulator]> = Vec::new();
    let mut k: usize = 0;
    let ghost all_chains = member_chains(config.instruments@, slots, g);
    let ghost all_racks = member_racks(config.instruments@, slots, g);
    assert(member_chain_list(chains@) =~= all_chains.take(0));
    assert(member_mod_list(racks@) =~= all_racks.take(0));
    while k < members.len()
        invariant
            k <= members.len(),
            members@ == config_members(config.instruments@, g),
            forall|j: int| 0 <= j < members@.len() ==> (#[trigger] members@[j]) < lanes@.len(),
            lanes@.len() == slots.len() == config.instruments@.len(),
            forall|i: int|
                0 <= i < slots.len() ==> lane_known(
                    #[trigger] lanes@[i],
                    config.instruments@[i],
                    slots[i],
                ),
            all_chains == member_chains(config.instruments@, slots, g),
            all_racks == member_racks(config.instruments@, slots, g),
            member_chain_list(chains@) == all_chains.take(k as int),
            member_mod_list(racks@) == all_racks.take(k as int),
        decreases members.len() - k,
    {
        let m: usize = members[k];
        let ghost chains_before = chains@;
        let ghost racks_before = racks@;
        chains.push(&lanes[m].chain);
        racks.push(lanes[m].modulators.as_slice());
        assert(member_chain_list(chains@) =~= member_chain_list(chains_before).push(
            slot_chain(slots[m as int]),
        ));
        assert(member_mod_list(racks@) =~= member_mod_list(racks_before).push(
            slot_shown(config.instruments@[m as int], slots[m as int]),
        ));
        assert(member_chain_list(chains@) =~= all_chains.take(k + 1));
        assert(member_mod_list(racks@) =~= all_racks.take(k + 1));
        k += 1;
    }
    assert(all_chains.take(members@.len() as int) =~= all_chains);
    assert(all_racks.take(members@.len() as int) =~= all_racks);
    let rack = load_group_modulators(&config.groups[g].modulators, g, &chains, &racks, bus);
    (rack.commands, rack.modulators)
}

proof fn members_are_lanes(groups: Seq<Option<usize>>, group: usize, n: nat)
    requires
        n <= groups.len() <= usize::MAX,
    ensures
        forall|k: int|
            0 <= k < member_indices(groups, group, n).len() ==> (#[trigger] member_indices(
                groups,
                group,
                n,
            )[k]) < n,
    decreases n,
{
    if n > 0 {
        members_are_lanes(groups, group, (n - 1) as nat);
        let rest = member_indices(groups, group, (n - 1) as nat);
        let all = member_indices(groups, group, n);
        assert forall|k: int| 0 <= k < all.len() implies (#[trigger] all[k]) < n by {
            if k < rest.len() {
                assert(all[k] == rest[k]);
            }
        }
    }
}

/// Set a session up whose plugins are loaded: work out all that is sent to the
/// graph, and what is known of every lane and group.
pub fn session_setup(
    config: &SessionConfig,
    slots: Vec<LoadedSlot>,
    buses: Vec<Vec<LoadedPlugin>>,
) -> (setup: SessionSetup)
    requires
        session_loaded(*config, slots@, buses@),
    ensures
        step_list(setup.commands@) == session_steps(*config, slots@, buses@),
        setup.lanes@.len() == slots@.len(),
        forall|i: int|
            0 <= i < slots@.len() ==> lane_known(
                #[trigger] setup.lanes@[i],
                config.instruments@[i],
                slots@[i],
            ),
        setup.groups@.len() == buses@.len(),
        forall|g: int|
            0 <= g < buses@.len() ==> group_known(
                #[trigger] setup.groups@[g],
                config.groups@[g],
                buses@[g]@,
            ),
        forall|g: int|
            0 <= g < buses@.len() ==> loaded_list((#[trigger] setup.groups@[g]).modulators@)
                == bus_rack_shown(*config, slots@, buses@, g),
{
    let ghost all_slots = slots@;
    let ghost all_buses = buses@;
    let mut commands: Vec<GraphCommand> = Vec::new();
    assert(step_list(commands@) =~= Seq::empty());
    let mut groups = add_groups(&config.groups, buses, &mut commands);
    let lanes = add_lanes(&config.instruments, slots, &mut commands);
    let mut memberships: Vec<Option<usize>> = Vec::new();
    let mut i: usize = 0;
    while i < config.instruments.len()
        invariant
            i <= config.instruments.len(),
            memberships@ == config_memberships(config.instruments@).take(i as int),
        decreases config.instruments.len() - i,
    {
        memberships.push(config.instruments[i].group);
        assert(memberships@ =~= config_memberships(config.instruments@).take(i + 1));
        i += 1;
    }
    assert(memberships@ =~= config_memberships(config.instruments@));
    let ghost before = step_list(commands@);
    let mut g: usize = 0;
    assert(before =~= before + bus_rack_steps(*config, all_slots, all_buses, 0));
    while g < groups.len()
        invariant
            g <= groups.len(),
            groups@.len() == all_buses.len() == config.groups@.len(),
            memberships@ == config_memberships(config.instruments@),
            lanes@.len() == all_slots.len() == config.instruments@.len(),
            forall|i: int|
                0 <= i < all_slots.len() ==> lane_known(
                    #[trigger] lanes@[i],
                    config.instruments@[i],
                    all_slots[i],
                ),
            forall|k: int|
                0 <= k < all_buses.len() ==> group_known(
                    #[trigger] groups@[k],
                    config.groups@[k],
                    all_buses[k]@,
                ),
            forall|k: int|
                0 <= k < g ==> loaded_list((#[trigger] groups@[k]).modulators@) == bus_rack_shown(
                    *config,
                    all_slots,
                    all_buses,
                    k,
                ),
            step_list(commands@) == before + bus_rack_steps(
                *config,
                all_slots,
                all_buses,
                g as nat,
            ),
        decreases groups.len() - g,
    {
        let (more, modulators) = load_group_rack(
            config,
            &memberships,
            g,
            &lanes,
            &groups[g].chain,
            Ghost(all_slots),
            Ghost(all_buses),
        );
        extend(&mut commands, more);
        assert(step_list(commands@) =~= before + bus_rack_steps(
            *config,
            all_slots,
            all_buses,
            (g + 1) as nat,
        ));
        groups[g].modulators = modulators;
        g += 1;
    }
    assert(step_list(commands@) =~= session_steps(*config, all_slots, all_buses));
    SessionSetup { commands, lanes, groups }
}

} // verus!
