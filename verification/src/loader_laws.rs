//! What a session's modulators and their targets become.

use vstd::prelude::*;

use crate::config::{InstrumentSlotConfig, ModConfigModel, ParamModel, TargetModel};
use crate::loader::{
    config_shown, config_source, graph_mod_target, group_target, lane_entries, lane_target,
    modulator_shown, param_named, targets_resolved, LoadedModSource, LoadedModel, ResolvedModel,
};
use crate::modulation::{waveform_named, CrossModField, LfoWaveform, ModSource, ModTargetKind};
use crate::modulator_laws::sibling_driven;
use crate::override_laws::{first_named, names_stand_for_the_first};
use crate::scalar::F32Bits;
use crate::setup::config_events;
use crate::text::{dec, lowered};

verus! {

// ---------------------------------------------------------------------------
// Sources
// ---------------------------------------------------------------------------

/// A waveform is known by its name or an abbreviation, whatever the case of its
/// letters, and by no other.
pub proof fn waveforms_go_by_their_names(s: Seq<char>)
    ensures
        ({
            let name = lowered(s);
            match waveform_named(s) {
                Some(LfoWaveform::Sine) => name == "sine"@,
                Some(LfoWaveform::Triangle) => name == "triangle"@ || name == "tri"@,
                Some(LfoWaveform::Saw) => name == "saw"@ || name == "sawtooth"@,
                Some(LfoWaveform::Square) => name == "square"@ || name == "sq"@,
                None => {
                    &&& name != "sine"@ && name != "triangle"@ && name != "tri"@
                    &&& name != "saw"@ && name != "sawtooth"@
                    &&& name != "square"@ && name != "sq"@
                },
            }
        }),
{
}

/// Lowering turns the capitals A to Z into small letters and leaves all else.
pub proof fn lowering_turns_capitals(s: Seq<char>, i: int)
    requires
        0 <= i < s.len(),
    ensures
        lowered(s).len() == s.len(),
        65 <= s[i] as int <= 90 ==> lowered(s)[i] as int == s[i] as int + 32,
        (s[i] as int) < 65 || s[i] as int > 90 ==> lowered(s)[i] == s[i],
{
}

/// A configuration of type "envelope" gives an envelope with its times and
/// sustain level, at rest, silent and with no note held; any other gives an LFO
/// with its rate and named waveform, or a sine, at the start of its cycle. What
/// is shown has the same settings.
pub proof fn sources_are_as_configured(m: ModConfigModel)
    ensures
        m.mod_type == "envelope"@ ==> {
            &&& config_source(m) matches ModSource::Envelope {
                attack,
                decay,
                sustain,
                release,
                state,
                level,
                notes_held,
            } && {
                &&& attack == m.attack && decay == m.decay && sustain == m.sustain
                &&& release == m.release
                &&& state is Idle && level.bits == 0 && notes_held == 0
            }
            &&& config_shown(m) == (LoadedModSource::Envelope {
                attack: m.attack,
                decay: m.decay,
                sustain: m.sustain,
                release: m.release,
            })
        },
        m.mod_type != "envelope"@ ==> {
            &&& config_source(m) matches ModSource::Lfo { waveform, rate, phase } && {
                &&& rate == m.rate && phase.bits == 0
                &&& waveform_named(m.waveform) is Some ==> Some(waveform) == waveform_named(
                    m.waveform,
                )
                &&& waveform_named(m.waveform) is None ==> waveform is Sine
                &&& config_shown(m) == (LoadedModSource::Lfo { waveform, rate })
            }
        },
{
}

// ---------------------------------------------------------------------------
// Targets
// ---------------------------------------------------------------------------

/// A resolved target is on a parameter: it is called as the parameter, spans its
/// range and moves around its default, by the configured depth.
pub open spec fn on_parameter(r: ResolvedModel, p: ParamModel, t: TargetModel) -> bool {
    &&& r.label == p.name
    &&& r.min == p.min
    &&& r.max == p.max
    &&& r.base == p.default
    &&& r.depth == t.depth
}

/// The slot that a lane's target is about: that of the effect whose modulator it
/// belongs to, or for the instrument's modulators the one that it names.
pub open spec fn slot_meant(t: TargetModel, own_slot: usize) -> usize {
    if own_slot != 0 {
        own_slot
    } else {
        t.slot
    }
}

/// A lane's target that names a parameter drives the first parameter of that name
/// of the plugin in its slot, which for an effect's own modulator is that effect;
/// without such a slot or parameter it drives nothing.
pub proof fn named_parameters_are_driven(
    t: TargetModel,
    chain: Seq<Seq<ParamModel>>,
    own_slot: usize,
    first: int,
    j: int,
)
    requires
        t.param is Some,
    ensures
        ({
            let slot = slot_meant(t, own_slot);
            let params = chain[slot as int];
            let r = lane_target(t, chain, own_slot, first);
            &&& slot >= chain.len() ==> r is None
            &&& slot < chain.len() && (forall|i: int|
                0 <= i < params.len() ==> (#[trigger] params[i]).name != t.param->0) ==> r is None
            &&& slot < chain.len() && first_named(params, t.param->0, j) ==> {
                let p = params[j];
                &&& r is Some
                &&& (r->0).kind == (ModTargetKind::PluginParam { slot, param_index: p.index })
                &&& (r->0).slot == slot
                &&& on_parameter(r->0, p, t)
            }
        }),
{
    let slot = slot_meant(t, own_slot);
    if slot < chain.len() {
        let params = chain[slot as int];
        names_stand_for_the_first(params, t.param->0, j);
        if forall|i: int| 0 <= i < params.len() ==> (#[trigger] params[i]).name != t.param->0 {
            assert(param_named(params, t.param->0, params.len()) is None);
        }
    }
}

/// A group's target with a member and a parameter name drives the first parameter
/// of that name in that slot of that member; one with a bus effect and a name
/// drives that of the effect. A member goes before a bus effect. Without such a
/// plugin or parameter it drives nothing.
pub proof fn named_group_parameters_are_driven(
    t: TargetModel,
    chains: Seq<Seq<Seq<ParamModel>>>,
    mods: Seq<Seq<LoadedModel>>,
    bus: Seq<Seq<ParamModel>>,
    j: int,
)
    requires
        t.param is Some,
    ensures
        ({
            let r = group_target(t, chains, mods, bus);
            let name = t.param->0;
            &&& t.member is Some ==> {
                let m = t.member->0;
                let there = m < chains.len() && t.slot < chains[m as int].len();
                let params = chains[m as int][t.slot as int];
                &&& !there ==> r is None
                &&& there && (forall|i: int|
                    0 <= i < params.len() ==> (#[trigger] params[i]).name != name) ==> r is None
                &&& there && first_named(params, name, j) ==> {
                    &&& r is Some
                    &&& (r->0).kind == (ModTargetKind::GroupMember {
                        member: m,
                        slot: t.slot,
                        param_index: params[j].index,
                    })
                    &&& (r->0).slot == t.slot
                    &&& on_parameter(r->0, params[j], t)
                }
            }
            &&& t.member is None && t.bus is Some ==> {
                let b = t.bus->0;
                let params = bus[b as int];
                &&& b >= bus.len() ==> r is None
                &&& b < bus.len() && (forall|i: int|
                    0 <= i < params.len() ==> (#[trigger] params[i]).name != name) ==> r is None
                &&& b < bus.len() && first_named(params, name, j) ==> {
                    &&& r is Some
                    &&& (r->0).kind == (ModTargetKind::GroupBus {
                        effect_index: b,
                        param_index: params[j].index,
                    })
                    &&& on_parameter(r->0, params[j], t)
                }
            }
        }),
{
    if t.member is Some {
        let m = t.member->0;
        if m < chains.len() && t.slot < chains[m as int].len() {
            names_stand_for_the_first(chains[m as int][t.slot as int], t.param->0, j);
        }
    } else if t.bus is Some && t.bus->0 < bus.len() {
        names_stand_for_the_first(bus[t.bus->0 as int], t.param->0, j);
    }
}

/// A target names this field of this modulator and no other.
pub open spec fn names_only(t: TargetModel, mod_index: usize, field: CrossModField) -> bool {
    &&& (match field {
        CrossModField::Rate => t.mod_rate == Some(mod_index),
        _ => t.mod_rate is None,
    })
    &&& (match field {
        CrossModField::Attack => t.mod_attack == Some(mod_index),
        _ => t.mod_attack is None,
    })
    &&& (match field {
        CrossModField::Decay => t.mod_decay == Some(mod_index),
        _ => t.mod_decay is None,
    })
    &&& (match field {
        CrossModField::Sustain => t.mod_sustain == Some(mod_index),
        _ => t.mod_sustain is None,
    })
    &&& (match field {
        CrossModField::Release => t.mod_release == Some(mod_index),
        _ => t.mod_release is None,
    })
    &&& (match field {
        CrossModField::Depth(target) => t.mod_depth is Some && (t.mod_depth->0).len() == 2 && (
        t.mod_depth->0)[0] == mod_index && (t.mod_depth->0)[1] == target,
        _ => t.mod_depth is None,
    })
}

/// A target names no field of any modulator.
pub open spec fn names_no_field(t: TargetModel) -> bool {
    &&& t.mod_rate is None && t.mod_attack is None && t.mod_decay is None
    &&& t.mod_sustain is None && t.mod_release is None && t.mod_depth is None
}

/// The lowest and highest value of a field, by its bits: a rate lies from 0.01 to
/// 50, a time from 0.001 to 10, a sustain level or depth from 0 to 1.
pub open spec fn spans(min: F32Bits, max: F32Bits, field: CrossModField) -> bool {
    match field {
        CrossModField::Rate => min.bits == 0x3c23_d70a && max.bits == 0x4248_0000,
        CrossModField::Attack => min.bits == 0x3a83_126f && max.bits == 0x4120_0000,
        CrossModField::Decay => min.bits == 0x3a83_126f && max.bits == 0x4120_0000,
        CrossModField::Sustain => min.bits == 0 && max.bits == 0x3f80_0000,
        CrossModField::Release => min.bits == 0x3a83_126f && max.bits == 0x4120_0000,
        CrossModField::Depth(_) => min.bits == 0 && max.bits == 0x3f80_0000,
    }
}

/// The usual value of a field, by its bits: rate 1, attack 0.01, decay 0.3,
/// sustain 0.7, release 0.5, depth 0.5.
pub open spec fn usual_bits(field: CrossModField) -> u32 {
    match field {
        CrossModField::Rate => 0x3f80_0000,
        CrossModField::Attack => 0x3c23_d70a,
        CrossModField::Decay => 0x3e99_999a,
        CrossModField::Sustain => 0x3f33_3333,
        CrossModField::Release => 0x3f00_0000,
        CrossModField::Depth(_) => 0x3f00_0000,
    }
}

/// A target without a parameter name drives the field that it names of the
/// sibling that it names, counted from where its plugin's modulators start; it
/// spans the field's range and moves around its usual value. Without a field it
/// drives nothing.
pub proof fn named_fields_are_driven(
    t: TargetModel,
    chain: Seq<Seq<ParamModel>>,
    own_slot: usize,
    first: int,
    mod_index: usize,
    field: CrossModField,
)
    requires
        t.param is None,
        0 <= first,
        mod_index + first <= usize::MAX,
    ensures
        ({
            let r = lane_target(t, chain, own_slot, first);
            &&& names_no_field(t) ==> r is None
            &&& names_only(t, mod_index, field) ==> {
                &&& r is Some
                &&& sibling_driven((r->0).kind) == Some(((mod_index + first) as usize, field))
                &&& spans((r->0).min, (r->0).max, field)
                &&& (r->0).base.bits == usual_bits(field)
                &&& (r->0).depth == t.depth
                &&& (r->0).slot == 0
            }
        }),
{
}

/// A target that names several fields drives the first of these: the rate, a
/// depth, the attack, the decay, the sustain level, the release. A depth without
/// its numbers counts from 0.
pub proof fn first_named_field_is_driven(
    t: TargetModel,
    chain: Seq<Seq<ParamModel>>,
    own_slot: usize,
    first: int,
)
    requires
        t.param is None,
    ensures
        ({
            let r = lane_target(t, chain, own_slot, first);
            let driven = sibling_driven((r->0).kind);
            let sibling = |i: usize| (i + first) as usize;
            let (mod_index, target) = depth_named(t);
            &&& t.mod_rate is Some ==> driven == Some(
                (sibling(t.mod_rate->0), CrossModField::Rate),
            )
            &&& t.mod_rate is None && t.mod_depth is Some ==> driven == Some(
                (sibling(mod_index), CrossModField::Depth(target)),
            )
            &&& t.mod_rate is None && t.mod_depth is None && t.mod_attack is Some ==> driven
                == Some((sibling(t.mod_attack->0), CrossModField::Attack))
            &&& t.mod_rate is None && t.mod_depth is None && t.mod_attack is None
                && t.mod_decay is Some ==> driven == Some(
                (sibling(t.mod_decay->0), CrossModField::Decay),
            )
            &&& t.mod_rate is None && t.mod_depth is None && t.mod_attack is None
                && t.mod_decay is None && t.mod_sustain is Some ==> driven == Some(
                (sibling(t.mod_sustain->0), CrossModField::Sustain),
            )
            &&& r is Some <==> !names_no_field(t)
        }),
{
}

/// The modulator and the target whose depth a target names.
pub open spec fn depth_named(t: TargetModel) -> (usize, usize) {
    let pair = t.mod_depth->0;
    (
        if pair.len() > 0 {
            pair[0]
        } else {
            0
        },
        if pair.len() > 1 {
            pair[1]
        } else {
            0
        },
    )
}

/// A group target on a member that names several fields drives the first of
/// these: the rate, the attack, the decay, the sustain level, the release, a
/// depth. Without a member and a bus it is a target on a sibling.
pub proof fn first_named_group_field_is_driven(
    t: TargetModel,
    chains: Seq<Seq<Seq<ParamModel>>>,
    mods: Seq<Seq<LoadedModel>>,
    bus: Seq<Seq<ParamModel>>,
    chain: Seq<Seq<ParamModel>>,
)
    requires
        t.param is None,
    ensures
        ({
            let r = group_target(t, chains, mods, bus);
            &&& t.member is None && t.bus is None ==> r == lane_target(t, chain, 0, 0)
            &&& t.member is Some && r is Some ==> {
                let on = |mod_index: usize, field: CrossModField|
                    (r->0).kind == (ModTargetKind::GroupMemberMod {
                        member: t.member->0,
                        mod_index,
                        field,
                    });
                let (mod_index, target) = depth_named(t);
                let no_rate = t.mod_rate is None;
                let no_attack = no_rate && t.mod_attack is None;
                let no_decay = no_attack && t.mod_decay is None;
                let no_sustain = no_decay && t.mod_sustain is None;
                &&& t.mod_rate is Some ==> on(t.mod_rate->0, CrossModField::Rate)
                &&& no_rate && t.mod_attack is Some ==> on(t.mod_attack->0, CrossModField::Attack)
                &&& no_attack && t.mod_decay is Some ==> on(t.mod_decay->0, CrossModField::Decay)
                &&& no_decay && t.mod_sustain is Some ==> on(
                    t.mod_sustain->0,
                    CrossModField::Sustain,
                )
                &&& no_sustain && t.mod_release is Some ==> on(
                    t.mod_release->0,
                    CrossModField::Release,
                )
                &&& no_sustain && t.mod_release is None ==> on(
                    mod_index,
                    CrossModField::Depth(target),
                )
            }
        }),
{
}

/// The word for a field.
pub open spec fn field_word(field: CrossModField) -> Seq<char> {
    match field {
        CrossModField::Rate => "rate"@,
        CrossModField::Attack => "attack"@,
        CrossModField::Decay => "decay"@,
        CrossModField::Sustain => "sustain"@,
        CrossModField::Release => "release"@,
        CrossModField::Depth(target) => "depth "@ + dec(target as nat),
    }
}

proof fn found_by_name(params: Seq<ParamModel>, name: Seq<char>, n: nat)
    ensures
        param_named(params, name, n) matches Some(p) ==> p.name == name,
    decreases n,
{
    if n > 0 {
        found_by_name(params, name, (n - 1) as nat);
    }
}

/// A target is labelled by what it drives: a parameter by its name, a sibling's
/// field by the sibling's number and the word for the field, a member's by the
/// member's number too.
pub proof fn targets_are_labelled(
    t: TargetModel,
    chain: Seq<Seq<ParamModel>>,
    own_slot: usize,
    first: int,
    chains: Seq<Seq<Seq<ParamModel>>>,
    mods: Seq<Seq<LoadedModel>>,
    bus: Seq<Seq<ParamModel>>,
)
    ensures
        lane_target(t, chain, own_slot, first) matches Some(r) ==> {
            &&& t.param is Some ==> r.label == t.param->0
            &&& t.param is None ==> {
                let driven = sibling_driven(r.kind);
                &&& driven is Some
                &&& r.label == "Mod "@ + dec((driven->0).0 as nat) + " "@ + field_word(
                    (driven->0).1,
                )
            }
        },
        group_target(t, chains, mods, bus) matches Some(r) ==> {
            &&& t.param is Some && (t.member is Some || t.bus is Some) ==> r.label == t.param->0
            &&& t.member is None && t.bus is None ==> {
                let driven = sibling_driven(r.kind);
                &&& driven is Some
                &&& r.label == "Mod "@ + dec((driven->0).0 as nat) + " "@ + field_word(
                    (driven->0).1,
                )
            }
            &&& t.param is None && t.member is Some ==> {
                &&& r.kind is GroupMemberMod
                &&& r.label == "M"@ + dec(t.member->0 as nat) + " Mod"@ + dec(
                    r.kind->GroupMemberMod_mod_index as nat,
                ) + " "@ + field_word(r.kind->GroupMemberMod_field)
            }
        },
{
    if let Some(name) = t.param {
        assert forall|params: Seq<ParamModel>| #[trigger]
            param_named(params, name, params.len()) is Some implies param_named(
            params,
            name,
            params.len(),
        )->0.name == name by {
            found_by_name(params, name, params.len());
        }
    }
}

/// The value that a shown modulator has for a field, if it has the field.
pub open spec fn shown_field(m: LoadedModel, field: CrossModField) -> Option<F32Bits> {
    match field {
        CrossModField::Rate => if let LoadedModSource::Lfo { rate, .. } = m.source {
            Some(rate)
        } else {
            None
        },
        CrossModField::Attack => if let LoadedModSource::Envelope { attack, .. } = m.source {
            Some(attack)
        } else {
            None
        },
        CrossModField::Decay => if let LoadedModSource::Envelope { decay, .. } = m.source {
            Some(decay)
        } else {
            None
        },
        CrossModField::Sustain => if let LoadedModSource::Envelope { sustain, .. } = m.source {
            Some(sustain)
        } else {
            None
        },
        CrossModField::Release => if let LoadedModSource::Envelope { release, .. } = m.source {
            Some(release)
        } else {
            None
        },
        CrossModField::Depth(t) => if t < m.targets.len() {
            Some(m.targets[t as int].depth)
        } else {
            None
        },
    }
}

/// A group's target with a member and a field drives that field of that modulator
/// of the member and moves around the value that it has there, or the field's
/// usual one; without such a modulator or field it drives nothing. With neither
/// member nor bus it drives the sibling that it names, and with a bus effect but
/// no parameter it drives nothing.
pub proof fn named_group_fields_are_driven(
    t: TargetModel,
    chains: Seq<Seq<Seq<ParamModel>>>,
    mods: Seq<Seq<LoadedModel>>,
    bus: Seq<Seq<ParamModel>>,
    mod_index: usize,
    field: CrossModField,
)
    requires
        t.param is None,
        names_only(t, mod_index, field) || names_no_field(t),
    ensures
        ({
            let r = group_target(t, chains, mods, bus);
            &&& names_no_field(t) ==> r is None
            &&& t.member is None && t.bus is Some ==> r is None
            &&& t.member is None && t.bus is None && names_only(t, mod_index, field) ==> {
                &&& r is Some
                &&& sibling_driven((r->0).kind) == Some((mod_index, field))
                &&& spans((r->0).min, (r->0).max, field)
                &&& (r->0).base.bits == usual_bits(field)
                &&& (r->0).depth == t.depth
            }
            &&& t.member is Some && names_only(t, mod_index, field) ==> {
                let m = t.member->0;
                let there = m < mods.len() && mod_index < mods[m as int].len();
                &&& !there ==> r is None
                &&& there ==> {
                    let own = shown_field(mods[m as int][mod_index as int], field);
                    &&& r is Some
                    &&& (r->0).kind == (ModTargetKind::GroupMemberMod {
                        member: m,
                        mod_index,
                        field,
                    })
                    &&& spans((r->0).min, (r->0).max, field)
                    &&& (r->0).depth == t.depth
                    &&& own is Some ==> (r->0).base == own->0
                    &&& own is None ==> (r->0).base.bits == usual_bits(field)
                }
            }
        }),
{
}

/// The targets of a modulator are those that could be resolved, in order; the
/// graph and the user interface get the same kind, depth and range, the graph
/// also the base value.
pub proof fn resolved_targets_stay_in_order(
    targets: Seq<TargetModel>,
    resolve: spec_fn(TargetModel) -> Option<ResolvedModel>,
    n: nat,
    m: ModConfigModel,
    k: int,
)
    requires
        n < targets.len(),
    ensures
        targets_resolved(targets, resolve, 0).len() == 0,
        targets_resolved(targets, resolve, n + 1) == (match resolve(targets[n as int]) {
            Some(r) => targets_resolved(targets, resolve, n).push(r),
            None => targets_resolved(targets, resolve, n),
        }),
        ({
            let all = targets_resolved(targets, resolve, n);
            let shown = modulator_shown(m, all);
            &&& shown.source == config_shown(m)
            &&& shown.targets.len() == all.len()
            &&& 0 <= k < all.len() ==> {
                let (r, t, s) = (all[k], graph_mod_target(all[k]), shown.targets[k]);
                &&& t.kind == r.kind && s.kind == r.kind
                &&& t.depth == r.depth && s.depth == r.depth
                &&& t.param_min == r.min && s.param_min == r.min
                &&& t.param_max == r.max && s.param_max == r.max
                &&& t.base_value == r.base
                &&& s.param_name == r.label && s.slot == r.slot
            }
        }),
{
}

/// The modulators of a lane are those of its instrument, in order, and then those
/// of each effect, in order. Each belongs to the slot of its plugin, and counts
/// siblings from the first of that plugin.
pub proof fn modulators_belong_to_their_plugin(c: InstrumentSlotConfig, n: nat, k: int)
    requires
        n < c.effects@.len(),
    ensures
        ({
            let start = lane_entries(c, 0);
            let before = lane_entries(c, n);
            let after = lane_entries(c, n + 1);
            let own = c.effects@[n as int].modulators@;
            &&& c.instrument is None ==> start.len() == 0
            &&& c.instrument is Some ==> {
                let mods = (c.instrument->0).modulators@;
                &&& start.len() == mods.len()
                &&& 0 <= k < mods.len() ==> start[k].config == mods[k]@ && start[k].own_slot == 0
                    && start[k].first == 0
            }
            &&& after.len() == before.len() + own.len()
            &&& after.take(before.len() as int) == before
            &&& 0 <= k < own.len() ==> {
                let e = after[before.len() + k];
                e.config == own[k]@ && e.own_slot == n + 1 && e.first == before.len()
            }
        }),
{
    assert(lane_entries(c, n + 1).take(lane_entries(c, n).len() as int) =~= lane_entries(c, n));
}

/// The events of a configured pattern are taken over one for one.
pub proof fn configured_events_are_taken_over(events: Seq<(u64, u8, u8, u8)>, i: int)
    requires
        0 <= i < events.len(),
    ensures
        config_events(events).len() == events.len(),
        config_events(events)[i].frame == events[i].0,
        config_events(events)[i].status == events[i].1,
        config_events(events)[i].note == events[i].2,
        config_events(events)[i].velocity == events[i].3,
{
}

} // verus!
