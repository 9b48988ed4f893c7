//! Parameter settings reach the plugins that they are configured on.

use vstd::prelude::*;

use crate::assembly::{
    bus_commands, bus_effect_commands, bus_rack_commands, bus_rack_steps, bus_steps,
    instrument_commands, lane_effect_commands, lane_steps, member_chains,
    member_racks, pattern_steps, plugin_params, session_loaded, session_steps, slot_chain,
    slot_rack_commands, slot_steps, step_list, step_of, transpose_commands, LoadedPlugin,
    LoadedSlot, SetupStep,
};
use crate::command::GraphCommand;
use crate::config::{
    mod_config_list, param_list, EffectConfig, GroupConfig, InstrumentSlotConfig, ModConfigModel,
    ParamModel, ParamSetting, SessionConfig,
};
use crate::loader::{
    group_rack_commands, lane_entries, lane_rack_commands, modulator_commands, param_named,
    LaneEntry, LoadedModel, RackOwner, ResolvedModel,
};
use crate::scalar::F32Bits;
use crate::setup::{
    group_commands, lane_commands, override_commands, override_unknown, override_values,
    pattern_settings, setting_param, swap_commands, OverrideOwner,
};

verus! {

// ---------------------------------------------------------------------------
// Names
// ---------------------------------------------------------------------------

/// Parameter `j` is the first with the name.
pub open spec fn first_named(params: Seq<ParamModel>, name: Seq<char>, j: int) -> bool {
    &&& 0 <= j < params.len()
    &&& params[j].name == name
    &&& forall|i: int| 0 <= i < j ==> (#[trigger] params[i]).name != name
}

proof fn first_is_found(params: Seq<ParamModel>, name: Seq<char>, n: nat)
    requires
        n <= params.len(),
    ensures
        match param_named(params, name, n) {
            Some(p) => exists|j: int|
                0 <= j < n && #[trigger] first_named(params, name, j) && params[j] == p,
            None => forall|i: int| 0 <= i < n ==> (#[trigger] params[i]).name != name,
        },
    decreases n,
{
    if n > 0 {
        first_is_found(params, name, (n - 1) as nat);
        if param_named(params, name, (n - 1) as nat) is None && params[n - 1].name == name {
            assert(first_named(params, name, n - 1));
        }
    }
}

/// A name stands for the first parameter that has it, and for none if none has.
pub proof fn names_stand_for_the_first(params: Seq<ParamModel>, name: Seq<char>, j: int)
    ensures
        first_named(params, name, j) ==> param_named(params, name, params.len()) == Some(params[j]),
        (forall|i: int| 0 <= i < params.len() ==> (#[trigger] params[i]).name != name)
            ==> param_named(params, name, params.len()) is None,
{
    first_is_found(params, name, params.len());
    if first_named(params, name, j) && param_named(params, name, params.len()) is Some {
        let p = param_named(params, name, params.len())->0;
        let k = choose|k: int|
            0 <= k < params.len() && #[trigger] first_named(params, name, k) && params[k] == p;
        if k < j {
            assert(params[k].name != name);
        }
        if j < k {
            assert(params[j].name != name);
        }
    }
}

/// Setting `k` names the parameter with this index.
pub open spec fn sets_param(
    params: Seq<ParamModel>,
    settings: Seq<ParamSetting>,
    k: int,
    param_index: u32,
) -> bool {
    exists|j: int| #[trigger]
        first_named(params, settings[k].name@, j) && params[j].index == param_index
}

proof fn settings_named(
    params: Seq<ParamModel>,
    settings: Seq<ParamSetting>,
    k: int,
    param_index: u32,
)
    ensures
        sets_param(params, settings, k, param_index) == (setting_param(params, settings[k]) is Some
            && (setting_param(params, settings[k])->0).index == param_index),
{
    first_is_found(params, settings[k].name@, params.len());
    if sets_param(params, settings, k, param_index) {
        let j = choose|j: int| #[trigger]
            first_named(params, settings[k].name@, j) && params[j].index == param_index;
        names_stand_for_the_first(params, settings[k].name@, j);
    }
}

// ---------------------------------------------------------------------------
// Values given by commands
// ---------------------------------------------------------------------------

/// The value that a step gives to a parameter of a plugin.
pub open spec fn value_given(
    step: SetupStep,
    owner: OverrideOwner,
    param_index: u32,
) -> Option<F32Bits> {
    match step {
        SetupStep::Plain {
            command: GraphCommand::SetParameter { inst, slot, param_index: p, value },
        } => if owner == (OverrideOwner::Chain { inst, slot }) && p == param_index {
            Some(value)
        } else {
            None
        },
        SetupStep::Plain {
            command: GraphCommand::SetGroupParameter { group, index, param_index: p, value },
        } => if owner == (OverrideOwner::Bus { group, index }) && p == param_index {
            Some(value)
        } else {
            None
        },
        _ => None,
    }
}

/// The last value that steps give to a parameter of a plugin.
pub open spec fn last_given(
    steps: Seq<SetupStep>,
    owner: OverrideOwner,
    param_index: u32,
) -> Option<F32Bits>
    decreases steps.len(),
{
    if steps.len() == 0 {
        None
    } else {
        match value_given(steps.last(), owner, param_index) {
            Some(v) => Some(v),
            None => last_given(steps.drop_last(), owner, param_index),
        }
    }
}

proof fn given_join(
    a: Seq<SetupStep>,
    b: Seq<SetupStep>,
    owner: OverrideOwner,
    param_index: u32,
)
    ensures
        last_given(a + b, owner, param_index) == (match last_given(b, owner, param_index) {
            Some(v) => Some(v),
            None => last_given(a, owner, param_index),
        }),
    decreases b.len(),
{
    if b.len() == 0 {
        assert(a + b =~= a);
    } else {
        assert((a + b).drop_last() =~= a + b.drop_last());
        given_join(a, b.drop_last(), owner, param_index);
    }
}

/// No step gives a value to any parameter.
spec fn silent(steps: Seq<SetupStep>) -> bool {
    forall|i: int, owner: OverrideOwner, p: u32|
        0 <= i < steps.len() ==> #[trigger] value_given(steps[i], owner, p) is None
}

proof fn silence_gives_nothing(steps: Seq<SetupStep>, owner: OverrideOwner, param_index: u32)
    requires
        silent(steps),
    ensures
        last_given(steps, owner, param_index) is None,
    decreases steps.len(),
{
    if steps.len() > 0 {
        assert(value_given(steps[steps.len() - 1], owner, param_index) is None);
        assert forall|i: int, o: OverrideOwner, p: u32|
            0 <= i < steps.drop_last().len() implies #[trigger] value_given(
            steps.drop_last()[i],
            o,
            p,
        ) is None by {
            assert(value_given(steps[i], o, p) is None);
        }
        silence_gives_nothing(steps.drop_last(), owner, param_index);
    }
}

proof fn steps_concatenate(a: Seq<GraphCommand>, b: Seq<GraphCommand>)
    ensures
        step_list(a + b) == step_list(a) + step_list(b),
{
    assert(step_list(a + b) =~= step_list(a) + step_list(b));
}

/// The value of the last of the first `n` settings that names a parameter.
spec fn last_setting(
    params: Seq<ParamModel>,
    settings: Seq<ParamSetting>,
    n: nat,
    param_index: u32,
) -> Option<F32Bits>
    decreases n,
{
    if n == 0 {
        None
    } else if sets_param(params, settings, n - 1, param_index) {
        Some(settings[n - 1].value)
    } else {
        last_setting(params, settings, (n - 1) as nat, param_index)
    }
}

proof fn last_setting_wins(
    params: Seq<ParamModel>,
    settings: Seq<ParamSetting>,
    n: nat,
    param_index: u32,
    k: int,
)
    ensures
        0 <= k < n && sets_param(params, settings, k, param_index) && (forall|l: int|
            k < l < n ==> !#[trigger] sets_param(params, settings, l, param_index))
            ==> last_setting(params, settings, n, param_index) == Some(settings[k].value),
        (forall|l: int| 0 <= l < n ==> !#[trigger] sets_param(params, settings, l, param_index))
            ==> last_setting(params, settings, n, param_index) is None,
    decreases n,
{
    if n > 0 {
        last_setting_wins(params, settings, (n - 1) as nat, param_index, k);
    }
}

proof fn overrides_given(
    owner: OverrideOwner,
    params: Seq<ParamModel>,
    settings: Seq<ParamSetting>,
    n: nat,
    asked: OverrideOwner,
    param_index: u32,
)
    requires
        n <= settings.len(),
    ensures
        last_given(step_list(override_commands(owner, params, settings, n)), asked, param_index)
            == (if asked == owner {
            last_setting(params, settings, n, param_index)
        } else {
            None
        }),
    decreases n,
{
    let steps = step_list(override_commands(owner, params, settings, n));
    if n > 0 {
        overrides_given(owner, params, settings, (n - 1) as nat, asked, param_index);
        settings_named(params, settings, n - 1, param_index);
        let rest = override_commands(owner, params, settings, (n - 1) as nat);
        if setting_param(params, settings[n - 1]) is Some {
            assert(steps.drop_last() =~= step_list(rest));
        }
    }
}

/// The commands that override a plugin's parameters set nothing but this plugin's
/// parameters; the last value that they give to a parameter is that of the last
/// setting that names it, and without such a setting they give none.
pub proof fn overrides_stay_on_their_plugin(
    owner: OverrideOwner,
    params: Seq<ParamModel>,
    settings: Seq<ParamSetting>,
    asked: OverrideOwner,
    param_index: u32,
    k: int,
)
    ensures
        ({
            let n = settings.len();
            let steps = step_list(override_commands(owner, params, settings, n));
            &&& asked != owner ==> last_given(steps, asked, param_index) is None
            &&& 0 <= k < n && sets_param(params, settings, k, param_index) && (forall|l: int|
                k < l < n ==> !#[trigger] sets_param(params, settings, l, param_index))
                ==> last_given(steps, owner, param_index) == Some(settings[k].value)
            &&& (forall|l: int|
                0 <= l < n ==> !#[trigger] sets_param(params, settings, l, param_index))
                ==> last_given(steps, owner, param_index) is None
        }),
{
    overrides_given(owner, params, settings, settings.len(), asked, param_index);
    overrides_given(owner, params, settings, settings.len(), owner, param_index);
    last_setting_wins(params, settings, settings.len(), param_index, k);
}

/// Every override command sets a parameter of its owner: the bus effect of a
/// group by the owner's group and effect, a plugin of a lane by the owner's lane
/// and slot.
pub proof fn override_commands_name_their_owner(
    owner: OverrideOwner,
    params: Seq<ParamModel>,
    settings: Seq<ParamSetting>,
    n: nat,
    i: int,
)
    requires
        n <= settings.len(),
        0 <= i < override_commands(owner, params, settings, n).len(),
    ensures
        match (owner, override_commands(owner, params, settings, n)[i]) {
            (
                OverrideOwner::Chain { inst, slot },
                GraphCommand::SetParameter { inst: a, slot: b, .. },
            ) => a == inst && b == slot,
            (
                OverrideOwner::Bus { group, index },
                GraphCommand::SetGroupParameter { group: a, index: b, .. },
            ) => a == group && b == index,
            _ => false,
        },
    decreases n,
{
    if n > 0 {
        let rest = override_commands(owner, params, settings, (n - 1) as nat);
        if i < rest.len() {
            override_commands_name_their_owner(owner, params, settings, (n - 1) as nat, i);
        }
    }
}

/// The values that a plugin ends up with are its own, except where a setting
/// names the parameter: there the last such setting gives the value.
pub proof fn overridden_values_are_the_settings(
    params: Seq<ParamModel>,
    baselines: Seq<F32Bits>,
    settings: Seq<ParamSetting>,
    n: nat,
    param_index: u32,
    k: int,
)
    requires
        n <= settings.len(),
    ensures
        ({
            let values = override_values(params, baselines, settings, n);
            &&& values.len() == baselines.len()
            &&& param_index < baselines.len() && 0 <= k < n && sets_param(
                params,
                settings,
                k,
                param_index,
            ) && (forall|l: int|
                k < l < n ==> !#[trigger] sets_param(params, settings, l, param_index))
                ==> values[param_index as int] == settings[k].value
            &&& param_index < baselines.len() && (forall|l: int|
                0 <= l < n ==> !#[trigger] sets_param(params, settings, l, param_index))
                ==> values[param_index as int] == baselines[param_index as int]
        }),
    decreases n,
{
    if n > 0 {
        overridden_values_are_the_settings(
            params,
            baselines,
            settings,
            (n - 1) as nat,
            param_index,
            k,
        );
        settings_named(params, settings, n - 1, param_index);
    }
}

/// The settings that are reported as unknown are those whose name no parameter
/// has, in order.
pub proof fn unknown_settings_name_nothing(
    params: Seq<ParamModel>,
    settings: Seq<ParamSetting>,
    n: nat,
    k: usize,
)
    requires
        n <= settings.len(),
        settings.len() <= usize::MAX,
    ensures
        ({
            let unknown = override_unknown(params, settings, n);
            &&& unknown.contains(k) == (k < n && forall|j: int|
                0 <= j < params.len() ==> (#[trigger] params[j]).name != settings[k as int].name@)
            &&& forall|a: int, b: int|
                0 <= a < b < unknown.len() ==> #[trigger] unknown[a] < #[trigger] unknown[b] < n
            &&& forall|a: int| 0 <= a < unknown.len() ==> #[trigger] unknown[a] < n
        }),
    decreases n,
{
    if n > 0 {
        unknown_settings_name_nothing(params, settings, (n - 1) as nat, k);
        let rest = override_unknown(params, settings, (n - 1) as nat);
        let all = override_unknown(params, settings, n);
        let name = settings[n - 1].name@;
        first_is_found(params, name, params.len());
        if setting_param(params, settings[n - 1]) is Some {
            let p = setting_param(params, settings[n - 1])->0;
            let j = choose|j: int|
                0 <= j < params.len() && #[trigger] first_named(params, name, j) && params[j] == p;
            assert(params[j].name == name);
        } else {
            assert(all == rest.push((n - 1) as usize));
            if k == n - 1 {
                assert(all[all.len() - 1] == k);
            }
            if rest.contains(k) {
                let a = choose|a: int| 0 <= a < rest.len() && rest[a] == k;
                assert(all[a] == k);
            }
            if all.contains(k) && k != n - 1 {
                let a = choose|a: int| 0 <= a < all.len() && all[a] == k;
                assert(rest[a] == k);
            }
        }
    }
}

// ---------------------------------------------------------------------------
// Sessions
// ---------------------------------------------------------------------------

proof fn one_step_joins(
    steps: Seq<GraphCommand>,
    cmd: GraphCommand,
    owner: OverrideOwner,
    param_index: u32,
)
    requires
        value_given(step_of(cmd), owner, param_index) is None,
    ensures
        last_given(step_list(steps.push(cmd)), owner, param_index) == last_given(
            step_list(steps),
            owner,
            param_index,
        ),
{
    assert(step_list(steps.push(cmd)).drop_last() =~= step_list(steps));
}

proof fn bus_effects_given(
    group: usize,
    configs: Seq<EffectConfig>,
    plugins: Seq<LoadedPlugin>,
    n: nat,
    owner: OverrideOwner,
    param_index: u32,
)
    requires
        n <= plugins.len() <= usize::MAX,
        configs.len() == plugins.len(),
    ensures
        last_given(
            step_list(bus_effect_commands(group, configs, plugins, n)),
            owner,
            param_index,
        ) == (match owner {
            OverrideOwner::Bus { group: g, index } => if g == group && index < n {
                last_setting(
                    param_list(plugins[index as int].params@),
                    configs[index as int].params@,
                    configs[index as int].params@.len(),
                    param_index,
                )
            } else {
                None
            },
            _ => None,
        }),
    decreases n,
{
    if n > 0 {
        bus_effects_given(group, configs, plugins, (n - 1) as nat, owner, param_index);
        let index = (n - 1) as usize;
        let c = configs[n - 1];
        let p = plugins[n - 1];
        let cmd = GraphCommand::InsertGroupEffect { group, index, effect: p.handle, mix: c.mix };
        let before = bus_effect_commands(group, configs, plugins, (n - 1) as nat);
        let own = OverrideOwner::Bus { group, index };
        let more = override_commands(own, param_list(p.params@), c.params@, c.params@.len());
        one_step_joins(before, cmd, owner, param_index);
        steps_concatenate(before.push(cmd), more);
        given_join(step_list(before.push(cmd)), step_list(more), owner, param_index);
        overrides_given(
            own,
            param_list(p.params@),
            c.params@,
            c.params@.len(),
            owner,
            param_index,
        );
    }
}

proof fn lane_effects_given(
    inst: usize,
    configs: Seq<EffectConfig>,
    plugins: Seq<LoadedPlugin>,
    n: nat,
    owner: OverrideOwner,
    param_index: u32,
)
    requires
        n <= plugins.len() <= usize::MAX,
        configs.len() == plugins.len(),
    ensures
        last_given(
            step_list(lane_effect_commands(inst, configs, plugins, n)),
            owner,
            param_index,
        ) == (match owner {
            OverrideOwner::Chain { inst: i, slot } => if i == inst && 0 < slot <= n {
                last_setting(
                    param_list(plugins[slot - 1].params@),
                    configs[slot - 1].params@,
                    configs[slot - 1].params@.len(),
                    param_index,
                )
            } else {
                None
            },
            _ => None,
        }),
    decreases n,
{
    if n > 0 {
        lane_effects_given(inst, configs, plugins, (n - 1) as nat, owner, param_index);
        let c = configs[n - 1];
        let p = plugins[n - 1];
        let cmd = GraphCommand::InsertEffect {
            inst,
            index: (n - 1) as usize,
            effect: p.handle,
            mix: c.mix,
        };
        let before = lane_effect_commands(inst, configs, plugins, (n - 1) as nat);
        let own = OverrideOwner::Chain { inst, slot: n as usize };
        let more = override_commands(own, param_list(p.params@), c.params@, c.params@.len());
        one_step_joins(before, cmd, owner, param_index);
        steps_concatenate(before.push(cmd), more);
        given_join(step_list(before.push(cmd)), step_list(more), owner, param_index);
        overrides_given(
            own,
            param_list(p.params@),
            c.params@,
            c.params@.len(),
            owner,
            param_index,
        );
    }
}

proof fn modulators_are_silent(
    owner: RackOwner,
    index: int,
    m: ModConfigModel,
    targets: Seq<ResolvedModel>,
)
    ensures
        silent(step_list(modulator_commands(owner, index, m, targets))),
{
}

proof fn silence_joins(a: Seq<GraphCommand>, b: Seq<GraphCommand>)
    requires
        silent(step_list(a)),
        silent(step_list(b)),
    ensures
        silent(step_list(a + b)),
{
    let all = step_list(a + b);
    assert forall|i: int, owner: OverrideOwner, p: u32|
        0 <= i < all.len() implies #[trigger] value_given(all[i], owner, p) is None by {
        if i < a.len() {
            assert(value_given(step_list(a)[i], owner, p) is None);
        } else {
            assert(value_given(step_list(b)[i - a.len()], owner, p) is None);
        }
    }
}

proof fn lane_racks_are_silent(
    inst: usize,
    entries: Seq<LaneEntry>,
    chain: Seq<Seq<ParamModel>>,
    n: nat,
)
    ensures
        silent(step_list(lane_rack_commands(inst, entries, chain, n))),
    decreases n,
{
    if n > 0 {
        lane_racks_are_silent(inst, entries, chain, (n - 1) as nat);
        let targets = crate::loader::entry_targets(entries[n - 1], chain);
        let owner = RackOwner::Lane { inst };
        modulators_are_silent(owner, n - 1, entries[n - 1].config, targets);
        silence_joins(
            lane_rack_commands(inst, entries, chain, (n - 1) as nat),
            modulator_commands(owner, n - 1, entries[n - 1].config, targets),
        );
    }
}

proof fn group_racks_are_silent(
    group: usize,
    mods: Seq<ModConfigModel>,
    chains: Seq<Seq<Seq<ParamModel>>>,
    shown: Seq<Seq<LoadedModel>>,
    bus: Seq<Seq<ParamModel>>,
    n: nat,
)
    ensures
        silent(step_list(group_rack_commands(group, mods, chains, shown, bus, n))),
    decreases n,
{
    if n > 0 {
        group_racks_are_silent(group, mods, chains, shown, bus, (n - 1) as nat);
        let targets = crate::loader::group_mod_targets(mods[n - 1], chains, shown, bus);
        let owner = RackOwner::Group { group };
        modulators_are_silent(owner, n - 1, mods[n - 1], targets);
        silence_joins(
            group_rack_commands(group, mods, chains, shown, bus, (n - 1) as nat),
            modulator_commands(owner, n - 1, mods[n - 1], targets),
        );
    }
}

/// The value that the settings of a lane's own plugin give.
spec fn slot_setting(
    c: InstrumentSlotConfig,
    s: LoadedSlot,
    slot: int,
    param_index: u32,
) -> Option<F32Bits> {
    if slot == 0 {
        match (c.instrument, s.instrument) {
            (Some(c), Some(s)) => last_setting(
                param_list(s.plugin.params@),
                c.params@,
                c.params@.len(),
                param_index,
            ),
            _ => None,
        }
    } else if 0 < slot <= s.effects@.len() {
        last_setting(
            param_list(s.effects@[slot - 1].params@),
            c.effects@[slot - 1].params@,
            c.effects@[slot - 1].params@.len(),
            param_index,
        )
    } else {
        None
    }
}

proof fn slot_given(
    inst: usize,
    c: InstrumentSlotConfig,
    s: LoadedSlot,
    owner: OverrideOwner,
    param_index: u32,
)
    requires
        c.effects@.len() == s.effects@.len(),
    ensures
        last_given(slot_steps(inst, c, s), owner, param_index) == (match owner {
            OverrideOwner::Chain { inst: i, slot } => if i == inst {
                slot_setting(c, s, slot as int, param_index)
            } else {
                None
            },
            _ => None,
        }),
{
    let lane = step_list(lane_commands(inst, c.range, c.group));
    let ic = instrument_commands(inst, c.instrument, s.instrument);
    let ec = lane_effect_commands(inst, c.effects@, s.effects@, s.effects@.len());
    let rc = slot_rack_commands(inst, c, s);
    let tc = transpose_commands(inst, c.transpose);
    let ps = pattern_steps(inst, c.pattern, s.pattern_length);
    assert(s.effects@.len() == s.effects.len());
    assert(silent(lane));
    silence_gives_nothing(lane, owner, param_index);
    lane_effects_given(inst, c.effects@, s.effects@, s.effects@.len(), owner, param_index);
    let entries = lane_entries(c, c.effects@.len());
    lane_racks_are_silent(inst, entries, slot_chain(s), entries.len());
    silence_gives_nothing(step_list(rc), owner, param_index);
    assert(silent(step_list(tc)));
    silence_gives_nothing(step_list(tc), owner, param_index);
    assert(silent(ps)) by {
        if let Some(p) = c.pattern {
            assert(silent(step_list(pattern_settings(inst, p))));
            let settings = step_list(pattern_settings(inst, p));
            assert forall|i: int, o: OverrideOwner, q: u32|
                0 <= i < ps.len() implies #[trigger] value_given(ps[i], o, q) is None by {
                if i > 0 {
                    assert(value_given(settings[i - 1], o, q) is None);
                }
            }
        }
    }
    silence_gives_nothing(ps, owner, param_index);
    if let (Some(cc), Some(ss)) = (c.instrument, s.instrument) {
        let swap = swap_commands(inst, ss.plugin.handle, ss.remapper, cc.volume, ss.gain);
        let own = OverrideOwner::Chain { inst, slot: 0 };
        let params = param_list(ss.plugin.params@);
        let more = override_commands(own, params, cc.params@, cc.params@.len());
        assert(silent(step_list(swap)));
        silence_gives_nothing(step_list(swap), owner, param_index);
        steps_concatenate(swap, more);
        given_join(step_list(swap), step_list(more), owner, param_index);
        overrides_given(own, params, cc.params@, cc.params@.len(), owner, param_index);
    } else {
        assert(silent(step_list(ic)));
        silence_gives_nothing(step_list(ic), owner, param_index);
    }
    given_join(lane, step_list(ic), owner, param_index);
    let a = lane + step_list(ic);
    given_join(a, step_list(ec), owner, param_index);
    let b = a + step_list(ec);
    given_join(b, step_list(rc), owner, param_index);
    let d = b + step_list(rc);
    given_join(d, step_list(tc), owner, param_index);
    given_join(d + step_list(tc), ps, owner, param_index);
}

proof fn lanes_given(
    instruments: Seq<InstrumentSlotConfig>,
    slots: Seq<LoadedSlot>,
    n: nat,
    owner: OverrideOwner,
    param_index: u32,
)
    requires
        n <= slots.len() <= usize::MAX,
        instruments.len() == slots.len(),
        forall|i: int|
            0 <= i < slots.len() ==> instruments[i].effects@.len() == (
            #[trigger] slots[i]).effects@.len(),
    ensures
        last_given(lane_steps(instruments, slots, n), owner, param_index) == (match owner {
            OverrideOwner::Chain { inst, slot } => if inst < n {
                slot_setting(instruments[inst as int], slots[inst as int], slot as int, param_index)
            } else {
                None
            },
            _ => None,
        }),
    decreases n,
{
    if n > 0 {
        lanes_given(instruments, slots, (n - 1) as nat, owner, param_index);
        let inst = (n - 1) as usize;
        assert(instruments[n - 1].effects@.len() == slots[n - 1].effects@.len());
        slot_given(inst, instruments[n - 1], slots[n - 1], owner, param_index);
        given_join(
            lane_steps(instruments, slots, (n - 1) as nat),
            slot_steps(inst, instruments[n - 1], slots[n - 1]),
            owner,
            param_index,
        );
    }
}

proof fn buses_given(
    groups: Seq<GroupConfig>,
    buses: Seq<Vec<LoadedPlugin>>,
    n: nat,
    owner: OverrideOwner,
    param_index: u32,
)
    requires
        n <= buses.len() <= usize::MAX,
        groups.len() == buses.len(),
        forall|g: int|
            0 <= g < buses.len() ==> groups[g].effects@.len() == (#[trigger] buses[g])@.len(),
    ensures
        last_given(bus_steps(groups, buses, n), owner, param_index) == (match owner {
            OverrideOwner::Bus { group, index } => if group < n && index
                < buses[group as int]@.len() {
                last_setting(
                    param_list(buses[group as int]@[index as int].params@),
                    groups[group as int].effects@[index as int].params@,
                    groups[group as int].effects@[index as int].params@.len(),
                    param_index,
                )
            } else {
                None
            },
            _ => None,
        }),
    decreases n,
{
    if n > 0 {
        buses_given(groups, buses, (n - 1) as nat, owner, param_index);
        let group = (n - 1) as usize;
        let c = groups[n - 1];
        let plugins = buses[n - 1]@;
        assert(c.effects@.len() == plugins.len());
        assert(plugins.len() == buses[n - 1].len());
        let head = group_commands(group, c.volume, c.pan);
        let more = bus_effect_commands(group, c.effects@, plugins, plugins.len());
        assert(silent(step_list(head)));
        silence_gives_nothing(step_list(head), owner, param_index);
        bus_effects_given(group, c.effects@, plugins, plugins.len(), owner, param_index);
        steps_concatenate(head, more);
        given_join(step_list(head), step_list(more), owner, param_index);
        given_join(
            bus_steps(groups, buses, (n - 1) as nat),
            step_list(bus_commands(group, c, plugins)),
            owner,
            param_index,
        );
    }
}

proof fn bus_racks_given(
    config: SessionConfig,
    slots: Seq<LoadedSlot>,
    buses: Seq<Vec<LoadedPlugin>>,
    n: nat,
    owner: OverrideOwner,
    param_index: u32,
)
    ensures
        last_given(bus_rack_steps(config, slots, buses, n), owner, param_index) is None,
    decreases n,
{
    if n > 0 {
        bus_racks_given(config, slots, buses, (n - 1) as nat, owner, param_index);
        let g = n - 1;
        let mods = mod_config_list(config.groups@[g].modulators@);
        let commands = bus_rack_commands(config, slots, buses, g);
        group_racks_are_silent(
            g as usize,
            mods,
            member_chains(config.instruments@, slots, g as usize),
            member_racks(config.instruments@, slots, g as usize),
            plugin_params(buses[g]@),
            mods.len(),
        );
        silence_gives_nothing(step_list(commands), owner, param_index);
        given_join(
            bus_rack_steps(config, slots, buses, (n - 1) as nat),
            step_list(commands),
            owner,
            param_index,
        );
    }
}

proof fn session_given(
    config: SessionConfig,
    slots: Seq<LoadedSlot>,
    buses: Seq<Vec<LoadedPlugin>>,
    owner: OverrideOwner,
    param_index: u32,
)
    requires
        session_loaded(config, slots, buses),
        slots.len() <= usize::MAX,
        buses.len() <= usize::MAX,
    ensures
        last_given(session_steps(config, slots, buses), owner, param_index) == (match owner {
            OverrideOwner::Chain { inst, slot } => if inst < slots.len() {
                slot_setting(
                    config.instruments@[inst as int],
                    slots[inst as int],
                    slot as int,
                    param_index,
                )
            } else {
                None
            },
            OverrideOwner::Bus { group, index } => if group < buses.len() && index
                < buses[group as int]@.len() {
                last_setting(
                    param_list(buses[group as int]@[index as int].params@),
                    config.groups@[group as int].effects@[index as int].params@,
                    config.groups@[group as int].effects@[index as int].params@.len(),
                    param_index,
                )
            } else {
                None
            },
        }),
{
    let a = bus_steps(config.groups@, buses, buses.len());
    let b = lane_steps(config.instruments@, slots, slots.len());
    let c = bus_rack_steps(config, slots, buses, buses.len());
    buses_given(config.groups@, buses, buses.len(), owner, param_index);
    lanes_given(config.instruments@, slots, slots.len(), owner, param_index);
    bus_racks_given(config, slots, buses, buses.len(), owner, param_index);
    given_join(a, b, owner, param_index);
    given_join(a + b, c, owner, param_index);
}

/// Setting a session up gives every parameter of a bus effect, as its last value,
/// that of the last of the effect's own settings that names it, and no value
/// where none of them does.
pub proof fn bus_effects_get_their_own_settings(
    config: SessionConfig,
    slots: Seq<LoadedSlot>,
    buses: Seq<Vec<LoadedPlugin>>,
    group: usize,
    index: usize,
    param_index: u32,
    k: int,
)
    requires
        session_loaded(config, slots, buses),
        slots.len() <= usize::MAX,
        buses.len() <= usize::MAX,
        group < buses.len(),
        index < buses[group as int]@.len(),
    ensures
        ({
            let params = param_list(buses[group as int]@[index as int].params@);
            let settings = config.groups@[group as int].effects@[index as int].params@;
            let given = last_given(
                session_steps(config, slots, buses),
                OverrideOwner::Bus { group, index },
                param_index,
            );
            &&& 0 <= k < settings.len() && sets_param(params, settings, k, param_index) && (forall|
                l: int,
            |
                k < l < settings.len() ==> !#[trigger] sets_param(params, settings, l, param_index))
                ==> given == Some(settings[k].value)
            &&& (forall|l: int|
                0 <= l < settings.len() ==> !#[trigger] sets_param(
                    params,
                    settings,
                    l,
                    param_index,
                )) ==> given is None
        }),
{
    let owner = OverrideOwner::Bus { group, index };
    session_given(config, slots, buses, owner, param_index);
    let params = param_list(buses[group as int]@[index as int].params@);
    let settings = config.groups@[group as int].effects@[index as int].params@;
    last_setting_wins(params, settings, settings.len(), param_index, k);
}

/// Setting a session up gives every parameter of an effect of a lane, as its last
/// value, that of the last of the effect's own settings that names it, and no
/// value where none of them does.
pub proof fn lane_effects_get_their_own_settings(
    config: SessionConfig,
    slots: Seq<LoadedSlot>,
    buses: Seq<Vec<LoadedPlugin>>,
    inst: usize,
    slot: usize,
    param_index: u32,
    k: int,
)
    requires
        session_loaded(config, slots, buses),
        slots.len() <= usize::MAX,
        buses.len() <= usize::MAX,
        inst < slots.len(),
        0 < slot <= slots[inst as int].effects@.len(),
    ensures
        ({
            let params = param_list(slots[inst as int].effects@[slot - 1].params@);
            let settings = config.instruments@[inst as int].effects@[slot - 1].params@;
            let given = last_given(
                session_steps(config, slots, buses),
                OverrideOwner::Chain { inst, slot },
                param_index,
            );
            &&& 0 <= k < settings.len() && sets_param(params, settings, k, param_index) && (forall|
                l: int,
            |
                k < l < settings.len() ==> !#[trigger] sets_param(params, settings, l, param_index))
                ==> given == Some(settings[k].value)
            &&& (forall|l: int|
                0 <= l < settings.len() ==> !#[trigger] sets_param(
                    params,
                    settings,
                    l,
                    param_index,
                )) ==> given is None
        }),
{
    let owner = OverrideOwner::Chain { inst, slot };
    session_given(config, slots, buses, owner, param_index);
    let params = param_list(slots[inst as int].effects@[slot - 1].params@);
    let settings = config.instruments@[inst as int].effects@[slot - 1].params@;
    last_setting_wins(params, settings, settings.len(), param_index, k);
}

/// Setting a session up gives every parameter of a lane's instrument, as its last
/// value, that of the last of the instrument's own settings that names it, and no
/// value where none of them does; a lane without an instrument gets none.
pub proof fn instruments_get_their_own_settings(
    config: SessionConfig,
    slots: Seq<LoadedSlot>,
    buses: Seq<Vec<LoadedPlugin>>,
    inst: usize,
    param_index: u32,
    k: int,
)
    requires
        session_loaded(config, slots, buses),
        slots.len() <= usize::MAX,
        buses.len() <= usize::MAX,
        inst < slots.len(),
    ensures
        ({
            let given = last_given(
                session_steps(config, slots, buses),
                OverrideOwner::Chain { inst, slot: 0 },
                param_index,
            );
            match (config.instruments@[inst as int].instrument, slots[inst as int].instrument) {
                (Some(c), Some(s)) => {
                    let params = param_list(s.plugin.params@);
                    let settings = c.params@;
                    &&& 0 <= k < settings.len() && sets_param(params, settings, k, param_index)
                        && (forall|l: int|
                        k < l < settings.len() ==> !#[trigger] sets_param(
                            params,
                            settings,
                            l,
                            param_index,
                        )) ==> given == Some(settings[k].value)
                    &&& (forall|l: int|
                        0 <= l < settings.len() ==> !#[trigger] sets_param(
                            params,
                            settings,
                            l,
                            param_index,
                        )) ==> given is None
                },
                _ => given is None,
            }
        }),
{
    let owner = OverrideOwner::Chain { inst, slot: 0 };
    session_given(config, slots, buses, owner, param_index);
    if let (Some(c), Some(s)) = (
        config.instruments@[inst as int].instrument,
        slots[inst as int].instrument,
    ) {
        last_setting_wins(
            param_list(s.plugin.params@),
            c.params@,
            c.params@.len(),
            param_index,
            k,
        );
    }
}

} // verus!
