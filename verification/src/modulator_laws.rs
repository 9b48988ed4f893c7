//! What modulators do: envelopes through notes and stages, fields, and the
//! routes between siblings.

use vstd::prelude::*;

use crate::event::MidiEvent;
use crate::modulation::{
    field_written, kind_after, rack_after, rack_rebased, sibling_field, targets_after,
    CrossModField, EnvState, ModSource, ModTarget, ModTargetKind, ModulatorModel, RackEdit,
};
use crate::playback_laws::{lets_go, presses};
use crate::rack::{
    env_after_events, level_settled, notes_tracked, rack_commanded, rack_tracked, RackCommand,
};
use crate::scalar::F32Bits;

verus! {

// ---------------------------------------------------------------------------
// Envelopes and notes
// ---------------------------------------------------------------------------

proof fn later_messages_keep_state(state: EnvState, held: u32, midi: Seq<MidiEvent>, n: int)
    requires
        0 <= n <= midi.len(),
        forall|j: int|
            n <= j < midi.len() ==> !presses(#[trigger] midi[j]) && !lets_go(midi[j]),
    ensures
        env_after_events(state, held, midi) == env_after_events(state, held, midi.take(n)),
    decreases midi.len() - n,
{
    if n < midi.len() {
        later_messages_keep_state(state, held, midi.drop_last(), n);
        assert(midi.drop_last().take(n) =~= midi.take(n));
        assert(!presses(midi.last()) && !lets_go(midi.last()));
    } else {
        assert(midi.take(n) =~= midi);
    }
}

/// Every press retriggers an envelope: after a buffer whose last note message is
/// a press, it is in its attack, whatever its stage and however many notes were
/// held before.
pub proof fn presses_retrigger(m: ModulatorModel, midi: Seq<MidiEvent>, last: int)
    requires
        m.source is Envelope,
        0 <= last < midi.len(),
        presses(midi[last]),
        forall|j: int|
            last < j < midi.len() ==> !presses(#[trigger] midi[j]) && !lets_go(midi[j]),
    ensures
        notes_tracked(m, midi).source matches ModSource::Envelope { state, notes_held, .. }
            && state is Attack && notes_held > 0,
{
    if let ModSource::Envelope { state, notes_held, .. } = m.source {
        later_messages_keep_state(state, notes_held, midi, last + 1);
        assert(midi.take(last + 1).last() == midi[last]);
    }
}

/// An envelope counts the held notes one message at a time: a press adds one, a
/// release takes one away, and the release of the last one starts the release
/// stage; any other release, and any other message, leaves the stage. The
/// settings, the level and the output are left, and an LFO sees no notes.
pub proof fn envelopes_count_notes(m: ModulatorModel, ev: MidiEvent)
    ensures
        ({
            let after = notes_tracked(m, seq![ev]);
            &&& after.targets == m.targets
            &&& after.sample_rate == m.sample_rate
            &&& after.last_output == m.last_output
            &&& m.source is Lfo ==> after == m
            &&& !presses(ev) && !lets_go(ev) ==> after == m
            &&& m.source matches ModSource::Envelope {
                attack,
                decay,
                sustain,
                release,
                state,
                level,
                notes_held,
            } ==> (after.source matches ModSource::Envelope {
                attack: a,
                decay: d,
                sustain: s,
                release: r,
                state: stage,
                level: l,
                notes_held: held,
            } && {
                &&& a == attack && d == decay && s == sustain && r == release && l == level
                &&& presses(ev) ==> stage is Attack
                &&& presses(ev) && notes_held < u32::MAX ==> held == notes_held + 1
                &&& presses(ev) && notes_held == u32::MAX ==> held == u32::MAX
                &&& lets_go(ev) && notes_held > 1 ==> held == notes_held - 1 && stage == state
                &&& lets_go(ev) && notes_held <= 1 ==> held == 0 && stage is Release
            })
        }),
{
    if let ModSource::Envelope { state, notes_held, .. } = m.source {
        assert(seq![ev].drop_last() =~= Seq::empty());
        assert(env_after_events(state, notes_held, seq![ev].drop_last()) == (state, notes_held));
    }
}

proof fn event_runs_join(state: EnvState, held: u32, a: Seq<MidiEvent>, b: Seq<MidiEvent>)
    ensures
        ({
            let (s, h) = env_after_events(state, held, a);
            env_after_events(state, held, a + b) == env_after_events(s, h, b)
        }),
    decreases b.len(),
{
    if b.len() == 0 {
        assert(a + b =~= a);
    } else {
        event_runs_join(state, held, a, b.drop_last());
        assert((a + b).drop_last() =~= a + b.drop_last());
    }
}

/// Two buffers are seen as one that holds the messages of both; a buffer without
/// messages changes nothing. Every modulator of a rack sees the same messages.
pub proof fn buffers_are_seen_in_turn(
    mods: Seq<ModulatorModel>,
    i: int,
    a: Seq<MidiEvent>,
    b: Seq<MidiEvent>,
)
    requires
        0 <= i < mods.len(),
    ensures
        notes_tracked(mods[i], Seq::empty()) == mods[i],
        notes_tracked(mods[i], a + b) == notes_tracked(notes_tracked(mods[i], a), b),
        rack_tracked(mods, a).len() == mods.len(),
        rack_tracked(mods, a)[i] == notes_tracked(mods[i], a),
{
    if let ModSource::Envelope { state, notes_held, .. } = mods[i].source {
        event_runs_join(state, notes_held, a, b);
    }
}

/// A number's place on the line: both zeros are at 0.
pub open spec fn place(v: F32Bits) -> int {
    if v.bits < 0x8000_0000 {
        v.bits as int
    } else {
        0x8000_0000 - v.bits
    }
}

/// A number that is neither infinite nor missing.
pub open spec fn finite(v: F32Bits) -> bool {
    -0x7f80_0000 < place(v) < 0x7f80_0000
}

/// The stages of an envelope follow one another: the attack runs to 1.0 and into
/// the decay, the decay to the sustain level and into the sustain, the release to
/// 0.001 and into rest. Short of its end a stage goes on, at the level stepped to.
/// The sustain stays at its level and rest is silent. An LFO has no stages.
pub proof fn stages_follow_one_another(m: ModulatorModel, stepped: F32Bits)
    requires
        finite(stepped),
        m.source matches ModSource::Envelope { sustain, .. } ==> finite(sustain),
    ensures
        ({
            let after = level_settled(m, stepped);
            &&& m.source is Lfo ==> after == m
            &&& after.targets == m.targets
            &&& after.sample_rate == m.sample_rate
            &&& m.source matches ModSource::Envelope {
                attack,
                decay,
                sustain,
                release,
                state,
                notes_held,
                ..
            } ==> (after.source matches ModSource::Envelope {
                attack: a,
                decay: d,
                sustain: s,
                release: r,
                state: stage,
                level,
                notes_held: held,
            } && {
                &&& a == attack && d == decay && s == sustain && r == release
                &&& held == notes_held
                &&& after.last_output == level
                &&& match state {
                    EnvState::Idle => stage is Idle && level.bits == 0,
                    EnvState::Attack => if place(stepped) >= 0x3f80_0000 {
                        stage is Decay && level.bits == 0x3f80_0000
                    } else {
                        stage is Attack && level == stepped
                    },
                    EnvState::Decay => if place(stepped) <= place(sustain) {
                        stage is Sustain && level == sustain
                    } else {
                        stage is Decay && level == stepped
                    },
                    EnvState::Sustain => stage is Sustain && level == sustain,
                    EnvState::Release => if place(stepped) <= 0x3a83_126f {
                        stage is Idle && level.bits == 0
                    } else {
                        stage is Release && level == stepped
                    },
                }
            })
        }),
{
}

// ---------------------------------------------------------------------------
// Fields
// ---------------------------------------------------------------------------

/// The value of a modulator's field, if it has that field.
pub open spec fn field_value(m: ModulatorModel, field: CrossModField) -> Option<F32Bits> {
    match field {
        CrossModField::Rate => if let ModSource::Lfo { rate, .. } = m.source {
            Some(rate)
        } else {
            None
        },
        CrossModField::Attack => if let ModSource::Envelope { attack, .. } = m.source {
            Some(attack)
        } else {
            None
        },
        CrossModField::Decay => if let ModSource::Envelope { decay, .. } = m.source {
            Some(decay)
        } else {
            None
        },
        CrossModField::Sustain => if let ModSource::Envelope { sustain, .. } = m.source {
            Some(sustain)
        } else {
            None
        },
        CrossModField::Release => if let ModSource::Envelope { release, .. } = m.source {
            Some(release)
        } else {
            None
        },
        CrossModField::Depth(t) => if t < m.targets.len() {
            Some(m.targets[t as int].depth)
        } else {
            None
        },
    }
}

/// What a modulator holds besides its fields: what kind of source it is, where it
/// stands in its run, and what its targets are besides their depths.
pub open spec fn same_besides_fields(a: ModulatorModel, b: ModulatorModel) -> bool {
    &&& a.sample_rate == b.sample_rate
    &&& a.last_output == b.last_output
    &&& a.targets.len() == b.targets.len()
    &&& forall|j: int|
        0 <= j < a.targets.len() ==> {
            &&& (#[trigger] a.targets[j]).kind == b.targets[j].kind
            &&& a.targets[j].base_value == b.targets[j].base_value
            &&& a.targets[j].param_min == b.targets[j].param_min
            &&& a.targets[j].param_max == b.targets[j].param_max
        }
    &&& match (a.source, b.source) {
        (
            ModSource::Lfo { waveform: w, phase: p, .. },
            ModSource::Lfo { waveform, phase, .. },
        ) => w == waveform && p == phase,
        (
            ModSource::Envelope { state: s, level: l, notes_held: n, .. },
            ModSource::Envelope { state, level, notes_held, .. },
        ) => s == state && l == level && n == notes_held,
        _ => false,
    }
}

/// Writing a field that a modulator has changes this field to the value and
/// nothing else; writing another one changes nothing.
pub proof fn writes_reach_one_field(
    m: ModulatorModel,
    field: CrossModField,
    value: F32Bits,
    other: CrossModField,
)
    ensures
        ({
            let after = field_written(m, field, value);
            &&& field_value(m, field) is Some ==> field_value(after, field) == Some(value)
            &&& field_value(m, field) is None ==> after == m
            &&& other != field ==> field_value(after, other) == field_value(m, other)
            &&& same_besides_fields(m, after)
        }),
{
}

/// Centring a kind of target gives every target of that kind the new base value
/// and changes nothing else in the rack.
pub proof fn centring_moves_base_values(
    mods: Seq<ModulatorModel>,
    kind: ModTargetKind,
    value: F32Bits,
    i: int,
    j: int,
)
    requires
        0 <= i < mods.len(),
    ensures
        ({
            let after = rack_rebased(mods, kind, value);
            &&& after.len() == mods.len()
            &&& after[i].source == mods[i].source
            &&& after[i].sample_rate == mods[i].sample_rate
            &&& after[i].last_output == mods[i].last_output
            &&& after[i].targets.len() == mods[i].targets.len()
            &&& 0 <= j < mods[i].targets.len() ==> {
                let (t, u) = (mods[i].targets[j], after[i].targets[j]);
                &&& u.kind == t.kind
                &&& u.depth == t.depth
                &&& u.param_min == t.param_min
                &&& u.param_max == t.param_max
                &&& u.base_value == (if t.kind == kind {
                    value
                } else {
                    t.base_value
                })
            }
        }),
{
}

// ---------------------------------------------------------------------------
// Targets through edits
// ---------------------------------------------------------------------------

/// The sibling and the field that a cross-mod target drives.
pub open spec fn sibling_driven(kind: ModTargetKind) -> Option<(usize, CrossModField)> {
    match kind {
        ModTargetKind::ModulatorRate { mod_index } => Some((mod_index, CrossModField::Rate)),
        ModTargetKind::ModulatorDepth { mod_index, target_index } => Some(
            (mod_index, CrossModField::Depth(target_index)),
        ),
        ModTargetKind::ModulatorAttack { mod_index } => Some((mod_index, CrossModField::Attack)),
        ModTargetKind::ModulatorDecay { mod_index } => Some((mod_index, CrossModField::Decay)),
        ModTargetKind::ModulatorSustain { mod_index } => Some((mod_index, CrossModField::Sustain)),
        ModTargetKind::ModulatorRelease { mod_index } => Some((mod_index, CrossModField::Release)),
        _ => None,
    }
}

/// The target kind for a field of a sibling drives that field of that sibling.
pub proof fn sibling_fields_are_driven(mod_index: usize, field: CrossModField)
    ensures
        sibling_driven(sibling_field(mod_index, field)) == Some((mod_index, field)),
{
}

/// After a modulator is taken out of a list of siblings, a cross-mod target on it
/// is gone, and one on any other sibling drives the same field of the same
/// sibling. Other targets are left.
pub proof fn sibling_targets_follow<A>(siblings: Seq<A>, removed: usize, kind: ModTargetKind)
    requires
        removed < siblings.len(),
    ensures
        ({
            let edit = RackEdit::ModulatorRemoved { removed };
            match sibling_driven(kind) {
                None => kind_after(kind, edit) == Some(kind),
                Some((m, field)) => match kind_after(kind, edit) {
                    None => m == removed,
                    Some(k) => {
                        &&& m != removed
                        &&& sibling_driven(k) is Some
                        &&& (sibling_driven(k)->0).1 == field
                        &&& m < siblings.len() ==> siblings.remove(
                            removed as int,
                        )[(sibling_driven(k)->0).0 as int] == siblings[m as int]
                    },
                },
            }
        }),
{
}

/// After a member's modulator is taken out, a group target on it is gone, and one
/// on another modulator of that member drives the same field of the same
/// modulator. Targets on other members, and other targets, are left.
pub proof fn member_modulator_targets_follow<A>(
    modulators: Seq<A>,
    member: usize,
    removed: usize,
    kind: ModTargetKind,
)
    requires
        removed < modulators.len(),
    ensures
        ({
            let edit = RackEdit::MemberModulatorRemoved { member, removed };
            match kind {
                ModTargetKind::GroupMemberMod { member: m, mod_index, field } if m == member => {
                    match kind_after(kind, edit) {
                        None => mod_index == removed,
                        Some(ModTargetKind::GroupMemberMod { member: n, mod_index: k, field: f }) => {
                            &&& mod_index != removed
                            &&& n == member
                            &&& f == field
                            &&& mod_index < modulators.len() ==> modulators.remove(
                                removed as int,
                            )[k as int] == modulators[mod_index as int]
                        },
                        Some(_) => false,
                    }
                },
                _ => kind_after(kind, edit) == Some(kind),
            }
        }),
{
}

/// The member that a group target reaches, and what of it besides.
pub open spec fn member_driven(kind: ModTargetKind) -> Option<usize> {
    match kind {
        ModTargetKind::GroupMember { member, .. } => Some(member),
        ModTargetKind::GroupMemberMod { member, .. } => Some(member),
        _ => None,
    }
}

/// Two targets reach the same thing, on whichever member.
pub open spec fn same_but_member(a: ModTargetKind, b: ModTargetKind) -> bool {
    match (a, b) {
        (
            ModTargetKind::GroupMember { slot: s, param_index: p, .. },
            ModTargetKind::GroupMember { slot, param_index, .. },
        ) => s == slot && p == param_index,
        (
            ModTargetKind::GroupMemberMod { mod_index: m, field: f, .. },
            ModTargetKind::GroupMemberMod { mod_index, field, .. },
        ) => m == mod_index && f == field,
        _ => false,
    }
}

/// After a member leaves or joins a list of members, a group target on a member
/// that stays reaches the same thing on the same member; one on the member that
/// left is gone. Other targets are left.
pub proof fn member_targets_follow<A>(
    members: Seq<A>,
    at: usize,
    joined: A,
    kind: ModTargetKind,
)
    requires
        members.len() < usize::MAX,
        at <= members.len(),
    ensures
        ({
            let leave = RackEdit::MemberRemoved { removed: at };
            let join = RackEdit::MemberInserted { inserted: at };
            match member_driven(kind) {
                None => kind_after(kind, leave) == Some(kind) && kind_after(kind, join) == Some(
                    kind,
                ),
                Some(m) => {
                    &&& at < members.len() ==> match kind_after(kind, leave) {
                        None => m == at,
                        Some(k) => {
                            &&& m != at
                            &&& same_but_member(k, kind)
                            &&& m < members.len() ==> members.remove(at as int)[member_driven(
                                k,
                            )->0 as int] == members[m as int]
                        },
                    }
                    &&& m < members.len() ==> match kind_after(kind, join) {
                        None => false,
                        Some(k) => {
                            &&& same_but_member(k, kind)
                            &&& members.insert(at as int, joined)[member_driven(k)->0 as int]
                                == members[m as int]
                        },
                    }
                },
            }
        }),
{
}

/// Edits of a chain touch targets on its plugins only, edits of a bus only those
/// on its effects.
pub proof fn edits_leave_other_targets(kind: ModTargetKind, a: usize, b: usize)
    ensures
        kind !is PluginParam ==> {
            &&& kind_after(kind, RackEdit::EffectInserted { at: a }) == Some(kind)
            &&& kind_after(kind, RackEdit::EffectRemoved { removed: a }) == Some(kind)
            &&& kind_after(kind, RackEdit::EffectMoved { from: a, to: b }) == Some(kind)
        },
        kind !is GroupBus ==> {
            &&& kind_after(kind, RackEdit::BusEffectRemoved { removed: a }) == Some(kind)
            &&& kind_after(kind, RackEdit::BusEffectMoved { from: a, to: b }) == Some(kind)
        },
{
}

/// An edit keeps every target that still has an object, in order, with its depth,
/// base value and range; the modulators are otherwise left.
pub proof fn edits_keep_targets_in_order(
    mods: Seq<ModulatorModel>,
    edit: RackEdit,
    i: int,
    t: ModTarget,
)
    requires
        0 <= i < mods.len(),
    ensures
        ({
            let after = rack_after(mods, edit);
            &&& after.len() == mods.len()
            &&& after[i].source == mods[i].source
            &&& after[i].sample_rate == mods[i].sample_rate
            &&& after[i].last_output == mods[i].last_output
            &&& after[i].targets == targets_after(mods[i].targets, edit)
            &&& targets_after(Seq::empty(), edit) == Seq::<ModTarget>::empty()
            &&& match kind_after(t.kind, edit) {
                None => targets_after(mods[i].targets.push(t), edit) == after[i].targets,
                Some(kind) => {
                    let all = targets_after(mods[i].targets.push(t), edit);
                    &&& all.len() == after[i].targets.len() + 1
                    &&& all.take(all.len() - 1) == after[i].targets
                    &&& all.last().kind == kind
                    &&& all.last().depth == t.depth
                    &&& all.last().base_value == t.base_value
                    &&& all.last().param_min == t.param_min
                    &&& all.last().param_max == t.param_max
                },
            }
        }),
{
    assert(mods[i].targets.push(t).drop_last() =~= mods[i].targets);
}

// ---------------------------------------------------------------------------
// Rack commands
// ---------------------------------------------------------------------------

/// An inserted modulator stands at its index, or at the end if that is out of
/// reach; it runs at the given rate, drives nothing and is silent. The others
/// keep their order.
pub proof fn inserted_modulators_start_fresh(
    mods: Seq<ModulatorModel>,
    index: usize,
    source: ModSource,
    rate: F32Bits,
)
    ensures
        ({
            let after = rack_commanded(mods, RackCommand::Insert { index, source }, rate);
            let at = if index < mods.len() {
                index as int
            } else {
                mods.len() as int
            };
            &&& after.len() == mods.len() + 1
            &&& after.remove(at) == mods
            &&& after[at].source == source
            &&& after[at].sample_rate == rate
            &&& after[at].targets.len() == 0
            &&& after[at].last_output.bits == 0
        }),
{
    let at = if index < mods.len() {
        index as int
    } else {
        mods.len() as int
    };
    assert(rack_commanded(mods, RackCommand::Insert { index, source }, rate).remove(at) =~= mods);
}

/// Removing a modulator leaves the others in order, and their targets follow; an
/// index out of range removes nothing.
pub proof fn removed_modulators_leave_the_rest(
    mods: Seq<ModulatorModel>,
    index: usize,
    rate: F32Bits,
    i: int,
)
    ensures
        ({
            let after = rack_commanded(mods, RackCommand::Remove { index }, rate);
            let edit = RackEdit::ModulatorRemoved { removed: index };
            &&& index >= mods.len() ==> after == mods
            &&& index < mods.len() ==> after.len() == mods.len() - 1
            &&& index < mods.len() && 0 <= i < after.len() ==> {
                let from = mods[if i < index {
                    i
                } else {
                    i + 1
                }];
                &&& after[i].source == from.source
                &&& after[i].sample_rate == from.sample_rate
                &&& after[i].last_output == from.last_output
                &&& after[i].targets == targets_after(from.targets, edit)
            }
        }),
{
}

/// A command on one field sets it, and siblings that drive it move around the new
/// value; nothing else changes. A rate is an LFO's, and a depth is not driven
/// around.
pub proof fn set_fields_are_read_back(
    mods: Seq<ModulatorModel>,
    mod_index: usize,
    value: F32Bits,
    target_index: usize,
    rate: F32Bits,
    i: int,
    j: int,
)
    requires
        0 <= i < mods.len(),
    ensures
        ({
            let after = rack_commanded(mods, RackCommand::SetRate { mod_index, rate: value }, rate);
            &&& after.len() == mods.len()
            &&& i == mod_index && field_value(mods[i], CrossModField::Rate) is Some
                ==> field_value(after[i], CrossModField::Rate) == Some(value)
            &&& i != mod_index || mods[i].source is Envelope ==> after[i].source
                == mods[i].source
            &&& after[i].targets.len() == mods[i].targets.len()
            &&& 0 <= j < mods[i].targets.len() ==> {
                let (t, u) = (mods[i].targets[j], after[i].targets[j]);
                let driven = sibling_driven(t.kind) == Some((mod_index, CrossModField::Rate));
                &&& u.kind == t.kind && u.depth == t.depth
                &&& u.param_min == t.param_min && u.param_max == t.param_max
                &&& u.base_value == (if driven {
                    value
                } else {
                    t.base_value
                })
            }
        }),
        ({
            let cmd = RackCommand::SetDepth { mod_index, target_index, depth: value };
            let after = rack_commanded(mods, cmd, rate);
            let field = CrossModField::Depth(target_index);
            &&& after.len() == mods.len()
            &&& i != mod_index ==> after[i] == mods[i]
            &&& i == mod_index ==> same_besides_fields(mods[i], after[i])
            &&& i == mod_index && target_index < mods[i].targets.len() ==> field_value(
                after[i],
                field,
            ) == Some(value)
            &&& after[i].source == mods[i].source
            &&& i == mod_index && 0 <= j < mods[i].targets.len() && j != target_index
                ==> after[i].targets[j] == mods[i].targets[j]
        }),
{
}

/// Setting an envelope sets its three times and its sustain level, and siblings
/// that drive one of them move around the new value; nothing else changes.
pub proof fn set_envelopes_are_read_back(
    mods: Seq<ModulatorModel>,
    mod_index: usize,
    attack: F32Bits,
    decay: F32Bits,
    sustain: F32Bits,
    release: F32Bits,
    rate: F32Bits,
    i: int,
    j: int,
)
    requires
        0 <= i < mods.len(),
    ensures
        ({
            let cmd = RackCommand::SetEnvelope { mod_index, attack, decay, sustain, release };
            let after = rack_commanded(mods, cmd, rate);
            &&& after.len() == mods.len()
            &&& i != mod_index || mods[i].source is Lfo ==> after[i].source == mods[i].source
            &&& i == mod_index && mods[i].source is Envelope ==> {
                &&& field_value(after[i], CrossModField::Attack) == Some(attack)
                &&& field_value(after[i], CrossModField::Decay) == Some(decay)
                &&& field_value(after[i], CrossModField::Sustain) == Some(sustain)
                &&& field_value(after[i], CrossModField::Release) == Some(release)
                &&& after[i].source->state == mods[i].source->state
                &&& after[i].source->level == mods[i].source->level
                &&& after[i].source->notes_held == mods[i].source->notes_held
            }
            &&& after[i].sample_rate == mods[i].sample_rate
            &&& after[i].last_output == mods[i].last_output
            &&& after[i].targets.len() == mods[i].targets.len()
            &&& 0 <= j < mods[i].targets.len() ==> {
                let (t, u) = (mods[i].targets[j], after[i].targets[j]);
                &&& u.kind == t.kind && u.depth == t.depth
                &&& u.param_min == t.param_min && u.param_max == t.param_max
                &&& u.base_value == match sibling_driven(t.kind) {
                    Some((m, CrossModField::Attack)) if m == mod_index => attack,
                    Some((m, CrossModField::Decay)) if m == mod_index => decay,
                    Some((m, CrossModField::Sustain)) if m == mod_index => sustain,
                    Some((m, CrossModField::Release)) if m == mod_index => release,
                    _ => t.base_value,
                }
            }
        }),
{
}

/// The commands on a waveform, a source and the targets change this one thing of
/// this one modulator. A new source starts with a silent output; an envelope has
/// no waveform.
pub proof fn modulators_take_their_settings(
    mods: Seq<ModulatorModel>,
    mod_index: usize,
    waveform: crate::modulation::LfoWaveform,
    source: ModSource,
    target: ModTarget,
    target_index: usize,
    rate: F32Bits,
    i: int,
)
    requires
        0 <= i < mods.len(),
    ensures
        ({
            let w = rack_commanded(mods, RackCommand::SetWaveform { mod_index, waveform }, rate);
            let s = rack_commanded(mods, RackCommand::SetSource { mod_index, source }, rate);
            let a = rack_commanded(mods, RackCommand::AddTarget { mod_index, target }, rate);
            let r = rack_commanded(
                mods,
                RackCommand::RemoveTarget { mod_index, target_index },
                rate,
            );
            &&& w.len() == s.len() == a.len() == r.len() == mods.len()
            &&& i != mod_index ==> w[i] == mods[i] && s[i] == mods[i] && a[i] == mods[i] && r[i]
                == mods[i]
            &&& i == mod_index ==> {
                &&& w[i].targets == mods[i].targets && s[i].targets == mods[i].targets
                &&& w[i].last_output == mods[i].last_output && s[i].last_output.bits == 0
                &&& w[i].sample_rate == mods[i].sample_rate
                &&& s[i].sample_rate == mods[i].sample_rate
                &&& s[i].source == source
                &&& mods[i].source is Envelope ==> w[i] == mods[i]
                &&& mods[i].source matches ModSource::Lfo { rate: x, phase: p, .. }
                    ==> w[i].source == (ModSource::Lfo { waveform, rate: x, phase: p })
                &&& a[i].source == mods[i].source && r[i].source == mods[i].source
                &&& a[i].last_output == mods[i].last_output
                &&& r[i].last_output == mods[i].last_output
                &&& a[i].sample_rate == mods[i].sample_rate
                &&& r[i].sample_rate == mods[i].sample_rate
                &&& a[i].targets == mods[i].targets.push(target)
                &&& r[i].targets == (if target_index < mods[i].targets.len() {
                    mods[i].targets.remove(target_index as int)
                } else {
                    mods[i].targets
                })
            }
        }),
{
}

} // verus!
