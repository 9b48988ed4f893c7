//! What setting a session up sends and knows.

use vstd::prelude::*;

use crate::assembly::{
    config_members, config_memberships, effect_values, group_known, lane_known, member_chains,
    member_racks, plugin_params, slot_chain, slot_loaded, slot_shown, slot_unknown, slot_values,
    GroupParts, LaneParts, LoadedPlugin, LoadedSlot,
};
use crate::command::GraphCommand;
use crate::command_laws::reports;
use crate::config::{
    param_list, GroupConfig, InstrumentSlotConfig, ParamModel, ParamSetting, PatternConfig,
};
use crate::event::MidiEvent;
use crate::graph::lanes_notifying;
use crate::lane::{LaneModel, PluginHandle};
use crate::pattern::{player_processed, player_report, PlayerModel};
use crate::remap::NoteRemapper;
use crate::scalar::{F32Bits, F64Bits};
use crate::scalar_laws::{distance, epsilon, is_finite, one, settings_matter_beyond_epsilon, value};
use crate::setup::{
    group_commands, lane_commands, member_indices, override_unknown, override_values,
    pattern_settings, plugin_count, swap_commands, transpose_command,
};

verus! {

// ---------------------------------------------------------------------------
// Commands
// ---------------------------------------------------------------------------

/// A group is added before anything is set on it. Its volume is set if it is not
/// 1.0 and its pan if it is not 0.0, to within the machine epsilon, each to what
/// is configured and on this group.
pub proof fn groups_are_added_then_set(group: usize, volume: F32Bits, pan: F32Bits)
    requires
        is_finite(volume),
        is_finite(pan),
    ensures
        ({
            let commands = group_commands(group, volume, pan);
            let loud = distance(value(volume), one()) > epsilon();
            let panned = distance(value(pan), 0) > epsilon();
            &&& commands[0] is AddGroup
            &&& commands.len() == 1 + (if loud {
                1int
            } else {
                0
            }) + (if panned {
                1int
            } else {
                0
            })
            &&& loud ==> commands[1] == (GraphCommand::SetGroupVolume { group, value: volume })
            &&& panned ==> commands.last() == (GraphCommand::SetGroupPan { group, value: pan })
        }),
{
    settings_matter_beyond_epsilon(volume);
    settings_matter_beyond_epsilon(pan);
}

/// A lane is added with its range and then joins its group, if it has one; its
/// instrument is put in with its outputs and remapper, and its gain follows where
/// the configured volume is off 1.0; it is transposed unless by nothing.
pub proof fn lanes_are_added_then_filled(
    inst: usize,
    range: Option<(u8, u8)>,
    group: Option<usize>,
    instrument: PluginHandle,
    remapper: Option<NoteRemapper>,
    volume: F64Bits,
    gain: F32Bits,
    semitones: i8,
)
    ensures
        ({
            let added = lane_commands(inst, range, group);
            &&& added[0] == (GraphCommand::AddInstrument { range })
            &&& group is None ==> added.len() == 1
            &&& group is Some ==> added.len() == 2 && added[1] == (GraphCommand::SetLaneGroup {
                inst,
                group,
            })
        }),
        ({
            let filled = swap_commands(inst, instrument, remapper, volume, gain);
            &&& filled[0] == (GraphCommand::SwapInstrument {
                inst,
                instrument,
                inst_outputs: instrument.outputs,
                remapper,
            })
            &&& volume.off_unity() ==> filled.len() == 2 && filled[1] == (GraphCommand::SetVolume {
                inst,
                value: gain,
            })
            &&& !volume.off_unity() ==> filled.len() == 1
        }),
        semitones == 0 ==> transpose_command(inst, semitones) is None,
        semitones != 0 ==> transpose_command(inst, semitones) == Some(
            GraphCommand::SetTranspose { inst, semitones },
        ),
{
}

/// Behind a pattern come its tempo and its length; then it is turned on if it is
/// to play, and off its loop if it is not to repeat.
pub proof fn patterns_are_followed_by_their_settings(inst: usize, p: PatternConfig)
    ensures
        ({
            let commands = pattern_settings(inst, p);
            &&& commands.len() == 2 + (if p.enabled {
                1int
            } else {
                0
            }) + (if p.looping {
                0int
            } else {
                1
            })
            &&& commands[0] == (GraphCommand::SetGlobalBpm { bpm: p.bpm })
            &&& commands[1] == (GraphCommand::SetPatternLength { inst, beats: p.length_beats })
            &&& p.enabled ==> commands[2] == (GraphCommand::SetPatternEnabled {
                inst,
                enabled: true,
            })
            &&& !p.looping ==> commands.last() == (GraphCommand::SetPatternLooping {
                inst,
                looping: false,
            })
        }),
{
}

// ---------------------------------------------------------------------------
// What is known
// ---------------------------------------------------------------------------

/// What is known of a plugin is what it says of itself, and the values that its
/// own settings leave it with.
pub open spec fn plugin_known(
    chain: Seq<ParamModel>,
    values: Seq<F32Bits>,
    p: LoadedPlugin,
    settings: Seq<ParamSetting>,
) -> bool {
    &&& chain == param_list(p.params@)
    &&& values == override_values(chain, p.baselines@, settings, settings.len())
}

/// A lane is known by its slots: its instrument first, or nothing in its place,
/// and then each effect, with its own parameters, values and unknown settings.
pub proof fn loaded_lanes_are_known(
    parts: LaneParts,
    c: InstrumentSlotConfig,
    s: LoadedSlot,
    i: int,
)
    requires
        lane_known(parts, c, s),
        slot_loaded(c, s),
    ensures
        ({
            let n = s.effects@.len();
            &&& parts.chain@.len() == n + 1
            &&& parts.values@.len() == n + 1
            &&& parts.unknown@.len() == n + 1
            &&& c.instrument is None ==> parts.chain@[0]@.len() == 0 && parts.values@[0]@.len() == 0
                && parts.unknown@[0]@.len() == 0
            &&& c.instrument is Some ==> {
                let (p, settings) = ((s.instrument->0).plugin, (c.instrument->0).params@);
                let chain = param_list(parts.chain@[0]@);
                &&& plugin_known(chain, parts.values@[0]@, p, settings)
                &&& parts.unknown@[0]@ == override_unknown(chain, settings, settings.len())
            }
            &&& 0 <= i < n ==> {
                let (p, settings) = (s.effects@[i], c.effects@[i].params@);
                let chain = param_list(parts.chain@[i + 1]@);
                &&& plugin_known(chain, parts.values@[i + 1]@, p, settings)
                &&& parts.unknown@[i + 1]@ == override_unknown(chain, settings, settings.len())
            }
        }),
{
    let chains = crate::config::chain_list(parts.chain@);
    let values = crate::assembly::lists(parts.values@);
    let unknown = crate::assembly::lists(parts.unknown@);
    assert(chains.len() == parts.chain@.len() && chains.len() == slot_chain(s).len());
    assert(values.len() == parts.values@.len() && values.len() == slot_values(c, s).len());
    assert(unknown.len() == parts.unknown@.len() && unknown.len() == slot_unknown(c, s).len());
    assert(chains[0] == param_list(parts.chain@[0]@));
    assert(values[0] == parts.values@[0]@);
    assert(unknown[0] == parts.unknown@[0]@);
    assert(param_list(parts.chain@[0]@).len() == parts.chain@[0]@.len());
    if 0 <= i < s.effects@.len() {
        assert(chains[i + 1] == param_list(parts.chain@[i + 1]@));
        assert(values[i + 1] == parts.values@[i + 1]@);
        assert(unknown[i + 1] == parts.unknown@[i + 1]@);
    }
}

/// A group is known by its bus effects, in order, each with its own parameters
/// and values.
pub proof fn loaded_groups_are_known(
    parts: GroupParts,
    c: GroupConfig,
    plugins: Seq<LoadedPlugin>,
    i: int,
)
    requires
        group_known(parts, c, plugins),
        0 <= i < plugins.len(),
    ensures
        parts.chain@.len() == plugins.len(),
        parts.values@.len() == plugins.len(),
        plugin_known(
            param_list(parts.chain@[i]@),
            parts.values@[i]@,
            plugins[i],
            c.effects@[i].params@,
        ),
{
    let chains = crate::config::chain_list(parts.chain@);
    let values = crate::assembly::lists(parts.values@);
    assert(chains.len() == parts.chain@.len() && chains.len() == plugin_params(plugins).len());
    assert(values.len() == parts.values@.len());
    assert(values.len() == effect_values(c.effects@, plugins).len());
    assert(chains[i] == param_list(parts.chain@[i]@));
    assert(values[i] == parts.values@[i]@);
}

/// The lanes before one that belong to a group.
pub open spec fn members_ahead(groups: Seq<Option<usize>>, group: usize, n: int) -> Seq<
    Option<usize>,
> {
    groups.take(n).filter(|g: Option<usize>| g == Some(group))
}

proof fn members_listed(groups: Seq<Option<usize>>, group: usize, n: nat, k: int, i: int)
    requires
        n <= groups.len() <= usize::MAX,
    ensures
        ({
            let members = member_indices(groups, group, n);
            &&& members.len() == members_ahead(groups, group, n as int).len()
            &&& 0 <= k < members.len() ==> {
                &&& members[k] < n
                &&& groups[members[k] as int] == Some(group)
                &&& members_ahead(groups, group, members[k] as int).len() == k
            }
            &&& 0 <= i < n && groups[i] == Some(group) ==> members.contains(i as usize)
        }),
    decreases n,
{
    reveal(Seq::filter);
    if n > 0 {
        members_listed(groups, group, (n - 1) as nat, k, i);
        assert(groups.take(n as int).drop_last() =~= groups.take(n - 1));
        let rest = member_indices(groups, group, (n - 1) as nat);
        let all = member_indices(groups, group, n);
        if groups[n - 1] == Some(group) {
            assert(all == rest.push((n - 1) as usize));
            if i == n - 1 {
                assert(all[all.len() - 1] == i);
            } else if rest.contains(i as usize) {
                let a = choose|a: int| 0 <= a < rest.len() && rest[a] == i as usize;
                assert(all[a] == i as usize);
            }
        }
    }
}

/// The members of a group are the lanes that are configured to belong to it, in
/// order, and what a group's modulators can reach of a member is that lane's own
/// chain and modulators.
pub proof fn groups_reach_their_own_members(
    instruments: Seq<InstrumentSlotConfig>,
    slots: Seq<LoadedSlot>,
    group: usize,
    k: int,
    i: int,
)
    requires
        instruments.len() <= usize::MAX,
    ensures
        ({
            let members = config_members(instruments, group);
            let chains = member_chains(instruments, slots, group);
            let racks = member_racks(instruments, slots, group);
            &&& chains.len() == members.len() && racks.len() == members.len()
            &&& 0 <= i < instruments.len() && instruments[i].group == Some(group)
                ==> members.contains(i as usize)
            &&& 0 <= k < members.len() ==> {
                let lane = members[k] as int;
                &&& lane < instruments.len()
                &&& instruments[lane].group == Some(group)
                &&& members_ahead(config_memberships(instruments), group, lane).len() == k
                &&& chains[k] == slot_chain(slots[lane])
                &&& racks[k] == slot_shown(instruments[lane], slots[lane])
            }
        }),
{
    members_listed(config_memberships(instruments), group, instruments.len(), k, i);
}

/// The chain of a lane is its instrument's parameters, or none in their place, and
/// then those of each effect; that of a bus is those of each effect.
pub proof fn chains_hold_their_plugins(s: LoadedSlot, i: int)
    ensures
        slot_chain(s).len() == s.effects@.len() + 1,
        s.instrument is None ==> slot_chain(s)[0].len() == 0,
        s.instrument is Some ==> slot_chain(s)[0] == param_list((s.instrument->0).plugin.params@),
        0 <= i < s.effects@.len() ==> slot_chain(s)[i + 1] == param_list(s.effects@[i].params@),
        plugin_params(s.effects@).len() == s.effects@.len(),
        0 <= i < s.effects@.len() ==> plugin_params(s.effects@)[i] == param_list(
            s.effects@[i].params@,
        ),
{
}

/// A session's plugins are counted: one for each effect of a lane, and one for its
/// instrument if it has one.
pub proof fn plugins_are_counted(slots: Seq<InstrumentSlotConfig>, n: nat)
    requires
        n < slots.len(),
    ensures
        plugin_count(slots, 0) == 0,
        slots[n as int].instrument is Some ==> plugin_count(slots, n + 1) == plugin_count(slots, n)
            + slots[n as int].effects@.len() + 1,
        slots[n as int].instrument is None ==> plugin_count(slots, n + 1) == plugin_count(slots, n)
            + slots[n as int].effects@.len(),
{
}

// ---------------------------------------------------------------------------
// Reports
// ---------------------------------------------------------------------------

/// Once somebody listens, every lane reports, under its own place; nothing else
/// of the lanes changes.
pub proof fn listening_reaches_every_lane(lanes: Seq<LaneModel>, i: int)
    requires
        0 <= i < lanes.len(),
    ensures
        ({
            let l = lanes_notifying(lanes)[i];
            &&& lanes_notifying(lanes).len() == lanes.len()
            &&& l.pattern.notifies
            &&& i <= usize::MAX ==> l.pattern.inst_index == i
            &&& l == (LaneModel {
                pattern: PlayerModel {
                    notifies: l.pattern.notifies,
                    inst_index: l.pattern.inst_index,
                    ..lanes[i].pattern
                },
                ..lanes[i]
            })
        }),
{
}

/// A buffer is reported exactly if a recording reaches its length in it and
/// somebody listens; the report then says what the player holds after the
/// buffer.
pub proof fn finished_recordings_are_reported(
    p: PlayerModel,
    midi: Seq<MidiEvent>,
    frames: int,
    degrees: &[u8],
    length: u64,
)
    ensures
        ({
            let ends = !p.counting_in && p.recording && p.record_pos + frames >= length;
            let report = player_report(p, midi, frames, length);
            let after = player_processed(p, midi, frames, degrees, length);
            &&& report is Some <==> ends && p.notifies
            &&& report is Some ==> reports(report->0, after)
            &&& ends ==> !after.recording && after.length_samples == length
            &&& p.recording && !p.counting_in && !ends ==> after.recording
        }),
{
}

} // verus!
