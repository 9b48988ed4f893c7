//! The commands that set a session up in an empty graph.

use vstd::prelude::*;

use crate::command::GraphCommand;
use crate::config::{
    param_list, InstrumentSlotConfig, ParamModel, ParamSetting, ParameterInfo, PatternConfig,
    SessionConfig,
};
use crate::graph::member_lane;
use crate::lane::{LaneModel, PluginHandle};
use crate::loader::param_named;
use crate::pattern::{Pattern, PatternEvent};
use crate::remap::NoteRemapper;
use crate::scalar::{F32Bits, F64Bits};
use crate::text::same_text;

verus! {

// ---------------------------------------------------------------------------
// Groups and lanes
// ---------------------------------------------------------------------------

/// The commands for a new group: volume and pan are set where they matter.
pub open spec fn group_commands(group: usize, volume: F32Bits, pan: F32Bits) -> Seq<GraphCommand> {
    seq![GraphCommand::AddGroup] + (if volume.off_unity() {
        seq![GraphCommand::SetGroupVolume { group, value: volume }]
    } else {
        Seq::empty()
    }) + (if pan.off_zero() {
        seq![GraphCommand::SetGroupPan { group, value: pan }]
    } else {
        Seq::empty()
    })
}

/// Set up group number `group`.
pub fn group_setup(group: usize, volume: F32Bits, pan: F32Bits) -> (commands: Vec<GraphCommand>)
    ensures
        commands@ == group_commands(group, volume, pan),
{
    let mut commands: Vec<GraphCommand> = Vec::new();
    commands.push(GraphCommand::AddGroup);
    if volume.is_off_unity() {
        commands.push(GraphCommand::SetGroupVolume { group, value: volume });
    }
    if pan.is_off_zero() {
        commands.push(GraphCommand::SetGroupPan { group, value: pan });
    }
    assert(commands@ =~= group_commands(group, volume, pan));
    commands
}

/// The commands for a new lane: it joins its group right away.
pub open spec fn lane_commands(
    inst: usize,
    range: Option<(u8, u8)>,
    group: Option<usize>,
) -> Seq<GraphCommand> {
    seq![GraphCommand::AddInstrument { range }] + (if group is Some {
        seq![GraphCommand::SetLaneGroup { inst, group }]
    } else {
        Seq::empty()
    })
}

/// Set up lane number `inst`.
pub fn lane_setup(inst: usize, range: Option<(u8, u8)>, group: Option<usize>) -> (commands: Vec<
    GraphCommand,
>)
    ensures
        commands@ == lane_commands(inst, range, group),
{
    let mut commands: Vec<GraphCommand> = Vec::new();
    commands.push(GraphCommand::AddInstrument { range });
    if group.is_some() {
        commands.push(GraphCommand::SetLaneGroup { inst, group });
    }
    assert(commands@ =~= lane_commands(inst, range, group));
    commands
}

/// The commands that put a loaded instrument into its lane. Its volume is
/// usually one.
pub open spec fn swap_commands(
    inst: usize,
    instrument: PluginHandle,
    remapper: Option<NoteRemapper>,
    volume: F64Bits,
    gain: F32Bits,
) -> Seq<GraphCommand> {
    seq![
        GraphCommand::SwapInstrument {
            inst,
            instrument,
            inst_outputs: instrument.outputs,
            remapper,
        },
    ] + (if volume.off_unity() {
        seq![GraphCommand::SetVolume { inst, value: gain }]
    } else {
        Seq::empty()
    })
}

/// Put a loaded instrument into its lane. `gain` is the configured volume in
/// single precision.
pub fn instrument_setup(
    inst: usize,
    instrument: PluginHandle,
    remapper: Option<NoteRemapper>,
    volume: F64Bits,
    gain: F32Bits,
) -> (commands: Vec<GraphCommand>)
    ensures
        commands@ == swap_commands(inst, instrument, remapper, volume, gain),
{
    let ghost table = remapper;
    let mut commands: Vec<GraphCommand> = Vec::new();
    commands.push(
        GraphCommand::SwapInstrument {
            inst,
            instrument,
            inst_outputs: instrument.outputs,
            remapper,
        },
    );
    if volume.is_off_unity() {
        commands.push(GraphCommand::SetVolume { inst, value: gain });
    }
    assert(commands@ =~= swap_commands(inst, instrument, table, volume, gain));
    commands
}

// ---------------------------------------------------------------------------
// Parameter overrides
// ---------------------------------------------------------------------------

/// The plugin whose parameters are overridden.
#[derive(Clone, Copy, Debug, PartialEq, Eq, Structural)]
pub enum OverrideOwner {
    /// A slot of a lane's chain.
    Chain { inst: usize, slot: usize },
    /// A bus effect of a group.
    Bus { group: usize, index: usize },
}

/// The command that sets a parameter of a plugin.
pub open spec fn override_command(
    owner: OverrideOwner,
    param_index: u32,
    value: F32Bits,
) -> GraphCommand {
    match owner {
        OverrideOwner::Chain { inst, slot } => GraphCommand::SetParameter {
            inst,
            slot,
            param_index,
            value,
        },
        OverrideOwner::Bus { group, index } => GraphCommand::SetGroupParameter {
            group,
            index,
            param_index,
            value,
        },
    }
}

/// What overriding a plugin's parameters comes to.
#[derive(Debug)]
pub struct Overrides {
    pub commands: Vec<GraphCommand>,
    /// The values that the plugin ends up with.
    pub values: Vec<F32Bits>,
    /// The settings whose parameter the plugin does not have.
    pub unknown: Vec<usize>,
}

/// The parameter that a setting names.
pub open spec fn setting_param(params: Seq<ParamModel>, setting: ParamSetting) -> Option<ParamModel> {
    param_named(params, setting.name@, params.len())
}

/// The commands for the first `n` settings.
pub open spec fn override_commands(
    owner: OverrideOwner,
    params: Seq<ParamModel>,
    settings: Seq<ParamSetting>,
    n: nat,
) -> Seq<GraphCommand>
    decreases n,
{
    if n == 0 {
        Seq::empty()
    } else {
        let rest = override_commands(owner, params, settings, (n - 1) as nat);
        match setting_param(params, settings[n - 1]) {
            Some(p) => rest.push(override_command(owner, p.index, settings[n - 1].value)),
            None => rest,
        }
    }
}

/// The plugin's values after the first `n` settings. Values are listed by
/// parameter index; one beyond the list has no place in it.
pub open spec fn override_values(
    params: Seq<ParamModel>,
    baselines: Seq<F32Bits>,
    settings: Seq<ParamSetting>,
    n: nat,
) -> Seq<F32Bits>
    decreases n,
{
    if n == 0 {
        baselines
    } else {
        let rest = override_values(params, baselines, settings, (n - 1) as nat);
        match setting_param(params, settings[n - 1]) {
            Some(p) => if p.index < rest.len() {
                rest.update(p.index as int, settings[n - 1].value)
            } else {
                rest
            },
            None => rest,
        }
    }
}

/// Which of the first `n` settings name no parameter.
pub open spec fn override_unknown(
    params: Seq<ParamModel>,
    settings: Seq<ParamSetting>,
    n: nat,
) -> Seq<usize>
    decreases n,
{
    if n == 0 {
        Seq::empty()
    } else {
        let rest = override_unknown(params, settings, (n - 1) as nat);
        match setting_param(params, settings[n - 1]) {
            Some(p) => rest,
            None => rest.push((n - 1) as usize),
        }
    }
}

fn find_index(params: &Vec<ParameterInfo>, name: &str) -> (found: Option<u32>)
    ensures
        match param_named(param_list(params@), name@, params.len() as nat) {
            Some(p) => found == Some(p.index),
            None => found is None,
        },
{
    let ghost list = param_list(params@);
    let mut found: Option<u32> = None;
    let mut i: usize = 0;
    while i < params.len()
        invariant
            list == param_list(params@),
            i <= params.len(),
            match param_named(list, name@, i as nat) {
                Some(p) => found == Some(p.index),
                None => found is None,
            },
        decreases params.len() - i,
    {
        assert(list[i as int] == params@[i as int]@);
        if found.is_none() && same_text(params[i].name.as_str(), name) {
            found = Some(params[i].index);
        }
        i += 1;
    }
    found
}

/// Override parameters of a plugin by name. `baselines` holds the values that
/// the plugin has after its preset.
pub fn param_overrides(
    owner: OverrideOwner,
    params: &Vec<ParameterInfo>,
    baselines: &Vec<F32Bits>,
    settings: &Vec<ParamSetting>,
) -> (o: Overrides)
    ensures
        ({
            let list = param_list(params@);
            let n = settings@.len();
            &&& o.commands@ == override_commands(owner, list, settings@, n)
            &&& o.values@ == override_values(list, baselines@, settings@, n)
            &&& o.unknown@ == override_unknown(list, settings@, n)
        }),
{
    let ghost list = param_list(params@);
    let mut commands: Vec<GraphCommand> = Vec::new();
    let mut values: Vec<F32Bits> = baselines.clone();
    let mut unknown: Vec<usize> = Vec::new();
    assert(values@ =~= baselines@);
    let mut i: usize = 0;
    while i < settings.len()
        invariant
            i <= settings.len(),
            list == param_list(params@),
            commands@ == override_commands(owner, list, settings@, i as nat),
            values@ == override_values(list, baselines@, settings@, i as nat),
            unknown@ == override_unknown(list, settings@, i as nat),
        decreases settings.len() - i,
    {
        match find_index(params, settings[i].name.as_str()) {
            Some(param_index) => {
                let value: F32Bits = settings[i].value;
                match owner {
                    OverrideOwner::Chain { inst, slot } => {
                        commands.push(
                            GraphCommand::SetParameter { inst, slot, param_index, value },
                        );
                    },
                    OverrideOwner::Bus { group, index } => {
                        commands.push(
                            GraphCommand::SetGroupParameter { group, index, param_index, value },
                        );
                    },
                }
                if (param_index as usize) < values.len() {
                    values.set(param_index as usize, value);
                }
            },
            None => {
                unknown.push(i);
            },
        }
        i += 1;
    }
    Overrides { commands, values, unknown }
}

// ---------------------------------------------------------------------------
// Transposition and pattern
// ---------------------------------------------------------------------------

/// The pattern event for a configured one.
pub open spec fn config_event(e: (u64, u8, u8, u8)) -> PatternEvent {
    PatternEvent { frame: e.0, status: e.1, note: e.2, velocity: e.3 }
}

/// The events of a configured pattern.
pub open spec fn config_events(events: Seq<(u64, u8, u8, u8)>) -> Seq<PatternEvent> {
    Seq::new(events.len(), |i: int| config_event(events[i]))
}

/// What follows the pattern itself: tempo, length and modes.
pub open spec fn pattern_settings(inst: usize, p: PatternConfig) -> Seq<GraphCommand> {
    seq![
        GraphCommand::SetGlobalBpm { bpm: p.bpm },
        GraphCommand::SetPatternLength { inst, beats: p.length_beats },
    ] + (if p.enabled {
        seq![GraphCommand::SetPatternEnabled { inst, enabled: true }]
    } else {
        Seq::empty()
    }) + (if !p.looping {
        seq![GraphCommand::SetPatternLooping { inst, looping: false }]
    } else {
        Seq::empty()
    })
}

/// Put a configured pattern into its lane. `length_samples` is its length at
/// its own tempo.
pub fn pattern_setup(inst: usize, p: &PatternConfig, length_samples: u64) -> (commands: Vec<
    GraphCommand,
>)
    ensures
        commands@.len() > 0,
        commands@[0] matches GraphCommand::SetPattern { inst: i, pattern, base_note, in_key } && {
            &&& i == inst
            &&& pattern.events@ == config_events(p.events@)
            &&& pattern.length_samples == length_samples
            &&& base_note == p.base_note
            &&& in_key == p.in_key
        },
        commands@.skip(1) == pattern_settings(inst, *p),
{
    let mut events: Vec<PatternEvent> = Vec::new();
    let mut i: usize = 0;
    while i < p.events.len()
        invariant
            i <= p.events.len(),
            events@ == config_events(p.events@).take(i as int),
        decreases p.events.len() - i,
    {
        let (frame, status, note, velocity) = p.events[i];
        events.push(PatternEvent { frame, status, note, velocity });
        assert(config_events(p.events@).take(i + 1) =~= config_events(p.events@).take(
            i as int,
        ).push(config_event(p.events@[i as int])));
        i += 1;
    }
    assert(config_events(p.events@).take(p.events@.len() as int) =~= config_events(p.events@));
    let mut commands: Vec<GraphCommand> = Vec::new();
    commands.push(
        GraphCommand::SetPattern {
            inst,
            pattern: Pattern { events, length_samples },
            base_note: p.base_note,
            in_key: p.in_key,
        },
    );
    commands.push(GraphCommand::SetGlobalBpm { bpm: p.bpm });
    commands.push(GraphCommand::SetPatternLength { inst, beats: p.length_beats });
    if p.enabled {
        commands.push(GraphCommand::SetPatternEnabled { inst, enabled: true });
    }
    if !p.looping {
        commands.push(GraphCommand::SetPatternLooping { inst, looping: false });
    }
    assert(commands@.skip(1) =~= pattern_settings(inst, *p));
    commands
}

/// The command that transposes a lane, unless by nothing.
pub open spec fn transpose_command(inst: usize, semitones: i8) -> Option<GraphCommand> {
    if semitones == 0 {
        None
    } else {
        Some(GraphCommand::SetTranspose { inst, semitones })
    }
}

/// Transpose a lane, unless by nothing.
pub fn transpose_setup(inst: usize, semitones: i8) -> (command: Option<GraphCommand>)
    ensures
        command == transpose_command(inst, semitones),
{
    if semitones != 0 {
        Some(GraphCommand::SetTranspose { inst, semitones })
    } else {
        None
    }
}

// ---------------------------------------------------------------------------
// Members and slots
// ---------------------------------------------------------------------------

/// The lanes among the first `n` that belong to a group.
pub open spec fn member_indices(groups: Seq<Option<usize>>, group: usize, n: nat) -> Seq<usize>
    decreases n,
{
    if n == 0 {
        Seq::empty()
    } else {
        let rest = member_indices(groups, group, (n - 1) as nat);
        if groups[n - 1] == Some(group) {
            rest.push((n - 1) as usize)
        } else {
            rest
        }
    }
}

/// The lanes of a group's members, in ordinal order.
pub fn group_members(groups: &Vec<Option<usize>>, group: usize) -> (members: Vec<usize>)
    ensures
        members@ == member_indices(groups@, group, groups@.len()),
{
    let mut members: Vec<usize> = Vec::new();
    let mut i: usize = 0;
    while i < groups.len()
        invariant
            i <= groups.len(),
            members@ == member_indices(groups@, group, i as nat),
        decreases groups.len() - i,
    {
        if groups[i] == Some(group) {
            members.push(i);
        }
        i += 1;
    }
    members
}

/// The memberships of lanes.
pub open spec fn lane_groups(lanes: Seq<LaneModel>) -> Seq<Option<usize>> {
    Seq::new(lanes.len(), |i: int| lanes[i].group)
}

proof fn members_counted(lanes: Seq<LaneModel>, group: usize, n: nat)
    requires
        n <= lanes.len() <= usize::MAX,
    ensures
        member_indices(lane_groups(lanes), group, n).len() == crate::graph::members_before(
            lanes,
            group,
            n as int,
        ),
    decreases n,
{
    if n > 0 {
        members_counted(lanes, group, (n - 1) as nat);
    }
}

/// The members of a group in ordinal order are the lanes that the graph finds
/// by those ordinals, so that a session's member numbers mean the same to both.
pub proof fn ordinals_agree(lanes: Seq<LaneModel>, group: usize, member: usize, n: nat)
    requires
        n <= lanes.len() <= usize::MAX,
    ensures
        member_lane(lanes, group, member, n as int) == (if member < member_indices(
            lane_groups(lanes),
            group,
            n,
        ).len() {
            Some(member_indices(lane_groups(lanes), group, n)[member as int])
        } else {
            None
        }),
    decreases n,
{
    if n > 0 {
        ordinals_agree(lanes, group, member, (n - 1) as nat);
        members_counted(lanes, group, (n - 1) as nat);
    }
}

/// How many plugins the first `n` slots of a session hold.
pub open spec fn plugin_count(slots: Seq<InstrumentSlotConfig>, n: nat) -> nat
    decreases n,
{
    if n == 0 {
        0
    } else {
        plugin_count(slots, (n - 1) as nat) + slots[n - 1].effects@.len() + if slots[n
            - 1].instrument is Some {
            1nat
        } else {
            0nat
        }
    }
}

/// How many plugins a session's lanes hold.
pub fn total_slots(config: &SessionConfig) -> (total: usize)
    requires
        plugin_count(config.instruments@, config.instruments@.len()) <= usize::MAX,
    ensures
        total == plugin_count(config.instruments@, config.instruments@.len()),
{
    let ghost slots = config.instruments@;
    let mut total: usize = 0;
    let mut i: usize = 0;
    while i < config.instruments.len()
        invariant
            slots == config.instruments@,
            i <= slots.len(),
            total == plugin_count(slots, i as nat),
            plugin_count(slots, slots.len()) <= usize::MAX,
        decreases slots.len() - i,
    {
        proof {
            counts_grow(slots, (i + 1) as nat, slots.len());
        }
        total = total + config.instruments[i].effects.len();
        if config.instruments[i].instrument.is_some() {
            total = total + 1;
        }
        i += 1;
    }
    total
}

proof fn counts_grow(slots: Seq<InstrumentSlotConfig>, n: nat, m: nat)
    requires
        n <= m,
    ensures
        plugin_count(slots, n) <= plugin_count(slots, m),
    decreases m - n,
{
    if n < m {
        counts_grow(slots, n, (m - 1) as nat);
    }
}

} // verus!
