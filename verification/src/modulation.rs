//! Modulators and the targets they drive.
//!
//! A rack is the list of modulators of one instrument lane or one group. Its
//! targets refer to plugins, group members and sibling modulators by index, so
//! every structural edit of the graph has to rewrite them.

use vstd::prelude::*;

use crate::scalar::F32Bits;
use crate::text::{lowered, same_text, to_lower};

verus! {

/// LFO waveform shape.
#[derive(Clone, Copy, Debug, PartialEq, Eq, Structural)]
pub enum LfoWaveform {
    Sine,
    Triangle,
    Saw,
    Square,
}

/// Which field of a modulator a cross-mod target drives. Shared by sibling
/// cross-mod (within one rack) and cross-mod from a group to a member.
#[derive(Clone, Copy, Debug, PartialEq, Eq, Structural)]
pub enum CrossModField {
    Rate,
    Attack,
    Decay,
    Sustain,
    Release,
    Depth(usize),
}

/// Identifies what a modulation target points at.
///
/// Modulators are lane-scoped or group-scoped: `slot` 0 is an instrument and
/// slots 1..N are its effects in order. Cross-mod kinds refer to a sibling
/// modulator by its index in the rack.
#[derive(Clone, Copy, Debug, PartialEq, Eq, Structural)]
pub enum ModTargetKind {
    /// A plugin parameter in the lane's own chain.
    PluginParam { slot: usize, param_index: u32 },
    /// (Group-scoped) A parameter on a member's chain; `member` is the
    /// member's ordinal within the group, in ascending lane order.
    GroupMember { member: usize, slot: usize, param_index: u32 },
    /// (Group-scoped) A parameter on one of the group's own bus effects.
    GroupBus { effect_index: usize, param_index: u32 },
    /// (Group-scoped) A field of a member lane's modulator.
    GroupMemberMod { member: usize, mod_index: usize, field: CrossModField },
    /// A sibling modulator's LFO rate.
    ModulatorRate { mod_index: usize },
    /// A sibling modulator's target depth.
    ModulatorDepth { mod_index: usize, target_index: usize },
    /// A sibling modulator's envelope attack.
    ModulatorAttack { mod_index: usize },
    /// A sibling modulator's envelope decay.
    ModulatorDecay { mod_index: usize },
    /// A sibling modulator's envelope sustain.
    ModulatorSustain { mod_index: usize },
    /// A sibling modulator's envelope release.
    ModulatorRelease { mod_index: usize },
}

/// A modulation target: one parameter of a plugin or of another modulator.
#[derive(Clone, Copy, Debug, PartialEq, Eq, Structural)]
pub struct ModTarget {
    pub kind: ModTargetKind,
    /// Fraction of the parameter range.
    pub depth: F32Bits,
    /// The user's set value, around which the modulation moves.
    pub base_value: F32Bits,
    pub param_min: F32Bits,
    pub param_max: F32Bits,
}

/// ADSR envelope state.
#[derive(Clone, Copy, Debug, PartialEq, Eq, Structural)]
pub enum EnvState {
    Idle,
    Attack,
    Decay,
    Sustain,
    Release,
}

/// Modulation source: either an LFO or an ADSR envelope.
#[derive(Clone, Copy, Debug, PartialEq, Eq, Structural)]
pub enum ModSource {
    Lfo { waveform: LfoWaveform, rate: F32Bits, phase: F32Bits },
    Envelope {
        attack: F32Bits,
        decay: F32Bits,
        sustain: F32Bits,
        release: F32Bits,
        state: EnvState,
        level: F32Bits,
        notes_held: u32,
    },
}

/// A block-rate modulator with a source and targets.
#[derive(Debug)]
pub struct Modulator {
    pub source: ModSource,
    pub sample_rate: F32Bits,
    pub targets: Vec<ModTarget>,
    /// Last computed output value (bipolar for an LFO, unipolar for an
    /// envelope).
    pub last_output: F32Bits,
}

/// What a modulator holds.
pub struct ModulatorModel {
    pub source: ModSource,
    pub sample_rate: F32Bits,
    pub targets: Seq<ModTarget>,
    pub last_output: F32Bits,
}

impl View for Modulator {
    type V = ModulatorModel;

    open spec fn view(&self) -> ModulatorModel {
        ModulatorModel {
            source: self.source,
            sample_rate: self.sample_rate,
            targets: self.targets@,
            last_output: self.last_output,
        }
    }
}

/// A rack as a sequence of modulator models.
pub open spec fn rack(mods: Seq<Modulator>) -> Seq<ModulatorModel> {
    Seq::new(mods.len(), |i: int| mods[i]@)
}

// ---------------------------------------------------------------------------
// LFO waveforms
// ---------------------------------------------------------------------------

impl LfoWaveform {
    /// Position in the cycling order.
    pub open spec fn position(self) -> int {
        match self {
            LfoWaveform::Sine => 0,
            LfoWaveform::Triangle => 1,
            LfoWaveform::Saw => 2,
            LfoWaveform::Square => 3,
        }
    }

    /// Position of the waveform in the cycling order.
    pub fn to_index(self) -> (index: usize)
        ensures
            index == self.position(),
            index < 4,
    {
        match self {
            LfoWaveform::Sine => 0,
            LfoWaveform::Triangle => 1,
            LfoWaveform::Saw => 2,
            LfoWaveform::Square => 3,
        }
    }

    fn from_index(index: usize) -> (w: LfoWaveform)
        requires
            index < 4,
        ensures
            w.position() == index,
    {
        if index == 0 {
            LfoWaveform::Sine
        } else if index == 1 {
            LfoWaveform::Triangle
        } else if index == 2 {
            LfoWaveform::Saw
        } else {
            LfoWaveform::Square
        }
    }

    /// Cycle to the next waveform.
    pub fn next(self) -> (w: LfoWaveform)
        ensures
            w.position() == (self.position() + 1) % 4,
    {
        LfoWaveform::from_index((self.to_index() + 1) % 4)
    }

    /// Cycle to the previous waveform.
    pub fn prev(self) -> (w: LfoWaveform)
        ensures
            w.position() == (self.position() + 3) % 4,
    {
        LfoWaveform::from_index((self.to_index() + 3) % 4)
    }
}

/// The waveform that a name stands for, in any ASCII case.
pub open spec fn waveform_named(s: Seq<char>) -> Option<LfoWaveform> {
    let name = lowered(s);
    if name == "sine"@ {
        Some(LfoWaveform::Sine)
    } else if name == "triangle"@ || name == "tri"@ {
        Some(LfoWaveform::Triangle)
    } else if name == "saw"@ || name == "sawtooth"@ {
        Some(LfoWaveform::Saw)
    } else if name == "square"@ || name == "sq"@ {
        Some(LfoWaveform::Square)
    } else {
        None
    }
}

impl LfoWaveform {
    /// The waveform's own name.
    pub open spec fn label(self) -> Seq<char> {
        match self {
            LfoWaveform::Sine => "sine"@,
            LfoWaveform::Triangle => "triangle"@,
            LfoWaveform::Saw => "saw"@,
            LfoWaveform::Square => "square"@,
        }
    }

    /// The waveform's name.
    pub fn name(self) -> (name: &'static str)
        ensures
            name@ == self.label(),
    {
        match self {
            LfoWaveform::Sine => "sine",
            LfoWaveform::Triangle => "triangle",
            LfoWaveform::Saw => "saw",
            LfoWaveform::Square => "square",
        }
    }

    /// The waveform with this name or abbreviation, in any ASCII case.
    pub fn from_str(s: &str) -> (w: Option<LfoWaveform>)
        ensures
            w == waveform_named(s@),
    {
        let lower = to_lower(s);
        let name: &str = lower.as_str();
        if same_text(name, "sine") {
            Some(LfoWaveform::Sine)
        } else if same_text(name, "triangle") || same_text(name, "tri") {
            Some(LfoWaveform::Triangle)
        } else if same_text(name, "saw") || same_text(name, "sawtooth") {
            Some(LfoWaveform::Saw)
        } else if same_text(name, "square") || same_text(name, "sq") {
            Some(LfoWaveform::Square)
        } else {
            None
        }
    }
}

/// Every waveform's name stands for that waveform.
pub proof fn waveform_names_read_back(w: LfoWaveform)
    ensures
        waveform_named(w.label()) == Some(w),
{
    reveal_strlit("sine");
    reveal_strlit("triangle");
    reveal_strlit("tri");
    reveal_strlit("saw");
    reveal_strlit("sawtooth");
    reveal_strlit("square");
    reveal_strlit("sq");
    assert(lowered(w.label()) =~= w.label());
    assert("sine"@.len() == 4);
    assert("triangle"@.len() == 8);
    assert("tri"@.len() == 3);
    assert("saw"@[0] == 's');
    assert("tri"@[0] == 't');
    assert("square"@.len() == 6);
}

/// Going on to the next waveform and back leads to the same one, either way
/// round.
pub proof fn waveforms_cycle(w: LfoWaveform, next: LfoWaveform, prev: LfoWaveform)
    requires
        next.position() == (w.position() + 1) % 4,
        prev.position() == (w.position() + 3) % 4,
    ensures
        (next.position() + 3) % 4 == w.position(),
        (prev.position() + 1) % 4 == w.position(),
{
}

/// No two waveforms share a position, so a position names its waveform.
pub proof fn positions_are_distinct(a: LfoWaveform, b: LfoWaveform)
    requires
        a.position() == b.position(),
    ensures
        a == b,
{
}

// ---------------------------------------------------------------------------
// Index bookkeeping
// ---------------------------------------------------------------------------

/// A structural edit of the graph that a rack's targets have to follow.
#[derive(Clone, Copy, Debug, PartialEq, Eq, Structural)]
pub enum RackEdit {
    /// The rack's modulator at this index was removed.
    ModulatorRemoved { removed: usize },
    /// An effect was inserted into the lane's chain at this effect index.
    EffectInserted { at: usize },
    /// The lane's effect at this index was removed.
    EffectRemoved { removed: usize },
    /// The lane's effect moved between two indices.
    EffectMoved { from: usize, to: usize },
    /// The group lost the member at this ordinal.
    MemberRemoved { removed: usize },
    /// The group gained a member at this ordinal.
    MemberInserted { inserted: usize },
    /// The modulator at index `removed` of member `member` was removed.
    MemberModulatorRemoved { member: usize, removed: usize },
    /// The group's bus effect at this index was removed.
    BusEffectRemoved { removed: usize },
    /// The group's bus effect moved between two indices.
    BusEffectMoved { from: usize, to: usize },
}

/// Where index `i` of a list ends up once `removed` is taken out.
pub open spec fn index_after_remove(i: usize, removed: usize) -> Option<usize> {
    if i == removed {
        None
    } else if i > removed {
        Some((i - 1) as usize)
    } else {
        Some(i)
    }
}

/// Where index `i` of a list ends up once an element is inserted at `at`.
pub open spec fn index_after_insert(i: usize, at: usize) -> usize {
    if i >= at {
        (i + 1) as usize
    } else {
        i
    }
}

/// Where index `i` of a list ends up once the element at `from` is taken out
/// and put back at `to`.
pub open spec fn index_after_move(i: usize, from: usize, to: usize) -> usize {
    if i == from {
        to
    } else if from < i && i <= to {
        (i - 1) as usize
    } else if to <= i && i < from {
        (i + 1) as usize
    } else {
        i
    }
}

/// The sibling modulator that a cross-mod target refers to.
pub open spec fn sibling_of(kind: ModTargetKind) -> Option<usize> {
    match kind {
        ModTargetKind::PluginParam { .. } => None,
        ModTargetKind::GroupMember { .. } => None,
        ModTargetKind::GroupBus { .. } => None,
        ModTargetKind::GroupMemberMod { .. } => None,
        ModTargetKind::ModulatorRate { mod_index } => Some(mod_index),
        ModTargetKind::ModulatorDepth { mod_index, .. } => Some(mod_index),
        ModTargetKind::ModulatorAttack { mod_index } => Some(mod_index),
        ModTargetKind::ModulatorDecay { mod_index } => Some(mod_index),
        ModTargetKind::ModulatorSustain { mod_index } => Some(mod_index),
        ModTargetKind::ModulatorRelease { mod_index } => Some(mod_index),
    }
}

/// The same cross-mod target, on sibling `m`.
pub open spec fn with_sibling(kind: ModTargetKind, m: usize) -> ModTargetKind {
    match kind {
        ModTargetKind::ModulatorRate { .. } => ModTargetKind::ModulatorRate { mod_index: m },
        ModTargetKind::ModulatorDepth { target_index, .. } => ModTargetKind::ModulatorDepth {
            mod_index: m,
            target_index,
        },
        ModTargetKind::ModulatorAttack { .. } => ModTargetKind::ModulatorAttack { mod_index: m },
        ModTargetKind::ModulatorDecay { .. } => ModTargetKind::ModulatorDecay { mod_index: m },
        ModTargetKind::ModulatorSustain { .. } => ModTargetKind::ModulatorSustain { mod_index: m },
        ModTargetKind::ModulatorRelease { .. } => ModTargetKind::ModulatorRelease { mod_index: m },
        _ => kind,
    }
}

/// The member ordinal that a group target lands on.
pub open spec fn member_of(kind: ModTargetKind) -> Option<usize> {
    match kind {
        ModTargetKind::GroupMember { member, .. } => Some(member),
        ModTargetKind::GroupMemberMod { member, .. } => Some(member),
        _ => None,
    }
}

/// The same group target, on member ordinal `m`.
pub open spec fn with_member(kind: ModTargetKind, m: usize) -> ModTargetKind {
    match kind {
        ModTargetKind::GroupMember { slot, param_index, .. } => ModTargetKind::GroupMember {
            member: m,
            slot,
            param_index,
        },
        ModTargetKind::GroupMemberMod { mod_index, field, .. } => ModTargetKind::GroupMemberMod {
            member: m,
            mod_index,
            field,
        },
        _ => kind,
    }
}

/// What a target kind becomes after an edit; `None` if the edit removed the
/// thing it pointed at.
pub open spec fn kind_after(kind: ModTargetKind, edit: RackEdit) -> Option<ModTargetKind> {
    match edit {
        RackEdit::ModulatorRemoved { removed } => match sibling_of(kind) {
            Some(m) => match index_after_remove(m, removed) {
                Some(n) => Some(with_sibling(kind, n)),
                None => None,
            },
            None => Some(kind),
        },
        RackEdit::EffectInserted { at } => match kind {
            // Effect `e` sits in slot `e + 1`; slot 0 is the instrument.
            ModTargetKind::PluginParam { slot, param_index } if slot > at => Some(
                ModTargetKind::PluginParam { slot: (slot + 1) as usize, param_index },
            ),
            _ => Some(kind),
        },
        RackEdit::EffectRemoved { removed } => match kind {
            ModTargetKind::PluginParam { slot, param_index } => match index_after_remove(
                slot,
                (removed + 1) as usize,
            ) {
                Some(s) => Some(ModTargetKind::PluginParam { slot: s, param_index }),
                None => None,
            },
            _ => Some(kind),
        },
        RackEdit::EffectMoved { from, to } => match kind {
            ModTargetKind::PluginParam { slot, param_index } if slot >= 1 => Some(
                ModTargetKind::PluginParam {
                    slot: (index_after_move((slot - 1) as usize, from, to) + 1) as usize,
                    param_index,
                },
            ),
            _ => Some(kind),
        },
        RackEdit::MemberRemoved { removed } => match member_of(kind) {
            Some(m) => match index_after_remove(m, removed) {
                Some(n) => Some(with_member(kind, n)),
                None => None,
            },
            None => Some(kind),
        },
        RackEdit::MemberInserted { inserted } => match member_of(kind) {
            Some(m) => Some(with_member(kind, index_after_insert(m, inserted))),
            None => Some(kind),
        },
        RackEdit::MemberModulatorRemoved { member, removed } => match kind {
            ModTargetKind::GroupMemberMod { member: m, mod_index, field } if m == member => {
                match index_after_remove(mod_index, removed) {
                    Some(n) => Some(
                        ModTargetKind::GroupMemberMod { member: m, mod_index: n, field },
                    ),
                    None => None,
                }
            },
            _ => Some(kind),
        },
        RackEdit::BusEffectRemoved { removed } => match kind {
            ModTargetKind::GroupBus { effect_index, param_index } => match index_after_remove(
                effect_index,
                removed,
            ) {
                Some(e) => Some(ModTargetKind::GroupBus { effect_index: e, param_index }),
                None => None,
            },
            _ => Some(kind),
        },
        RackEdit::BusEffectMoved { from, to } => match kind {
            ModTargetKind::GroupBus { effect_index, param_index } => Some(
                ModTargetKind::GroupBus {
                    effect_index: index_after_move(effect_index, from, to),
                    param_index,
                },
            ),
            _ => Some(kind),
        },
    }
}

/// The edit's own indices are in `usize` range once shifted, and so is the
/// index in `kind` that it would shift up.
pub open spec fn edit_fits(kind: ModTargetKind, edit: RackEdit) -> bool {
    match edit {
        RackEdit::EffectInserted { at } => match kind {
            ModTargetKind::PluginParam { slot, .. } => slot > at ==> slot < usize::MAX,
            _ => true,
        },
        RackEdit::EffectRemoved { removed } => removed < usize::MAX,
        RackEdit::EffectMoved { from, to } => from < usize::MAX && to < usize::MAX,
        RackEdit::MemberInserted { inserted } => match member_of(kind) {
            Some(m) => m >= inserted ==> m < usize::MAX,
            None => true,
        },
        _ => true,
    }
}

/// Every target of the rack can follow the edit.
pub open spec fn rack_edit_fits(mods: Seq<ModulatorModel>, edit: RackEdit) -> bool {
    forall|i: int, j: int|
        0 <= i < mods.len() && 0 <= j < mods[i].targets.len() ==> edit_fits(
            #[trigger] mods[i].targets[j].kind,
            edit,
        )
}

/// The targets that survive an edit, in order, each following what it points
/// at.
pub open spec fn targets_after(targets: Seq<ModTarget>, edit: RackEdit) -> Seq<ModTarget>
    decreases targets.len(),
{
    if targets.len() == 0 {
        Seq::empty()
    } else {
        let rest = targets_after(targets.drop_last(), edit);
        match kind_after(targets.last().kind, edit) {
            Some(kind) => rest.push(ModTarget { kind, ..targets.last() }),
            None => rest,
        }
    }
}

/// A rack after an edit: only targets change.
pub open spec fn rack_after(mods: Seq<ModulatorModel>, edit: RackEdit) -> Seq<ModulatorModel> {
    Seq::new(
        mods.len(),
        |i: int| ModulatorModel { targets: targets_after(mods[i].targets, edit), ..mods[i] },
    )
}

/// The sibling modulator that a cross-mod target refers to, if it is one.
pub fn cross_mod_index(kind: &ModTargetKind) -> (index: Option<usize>)
    ensures
        index == sibling_of(*kind),
{
    match *kind {
        ModTargetKind::PluginParam { .. } => None,
        ModTargetKind::GroupMember { .. } => None,
        ModTargetKind::GroupBus { .. } => None,
        ModTargetKind::GroupMemberMod { .. } => None,
        ModTargetKind::ModulatorRate { mod_index } => Some(mod_index),
        ModTargetKind::ModulatorDepth { mod_index, .. } => Some(mod_index),
        ModTargetKind::ModulatorAttack { mod_index } => Some(mod_index),
        ModTargetKind::ModulatorDecay { mod_index } => Some(mod_index),
        ModTargetKind::ModulatorSustain { mod_index } => Some(mod_index),
        ModTargetKind::ModulatorRelease { mod_index } => Some(mod_index),
    }
}

/// Decrement a cross-mod index that is greater than `removed_index`.
pub fn adjust_cross_mod_index(kind: &mut ModTargetKind, removed_index: usize)
    ensures
        *final(kind) == (match sibling_of(*old(kind)) {
            Some(m) if m > removed_index => with_sibling(*old(kind), (m - 1) as usize),
            _ => *old(kind),
        }),
{
    match cross_mod_index(kind) {
        Some(m) => {
            if m > removed_index {
                let n: usize = m - 1;
                *kind = match *kind {
                    ModTargetKind::ModulatorRate { .. } => ModTargetKind::ModulatorRate {
                        mod_index: n,
                    },
                    ModTargetKind::ModulatorDepth { target_index, .. } => {
                        ModTargetKind::ModulatorDepth { mod_index: n, target_index }
                    },
                    ModTargetKind::ModulatorAttack { .. } => ModTargetKind::ModulatorAttack {
                        mod_index: n,
                    },
                    ModTargetKind::ModulatorDecay { .. } => ModTargetKind::ModulatorDecay {
                        mod_index: n,
                    },
                    ModTargetKind::ModulatorSustain { .. } => ModTargetKind::ModulatorSustain {
                        mod_index: n,
                    },
                    ModTargetKind::ModulatorRelease { .. } => ModTargetKind::ModulatorRelease {
                        mod_index: n,
                    },
                    other => other,
                };
            }
        },
        None => {},
    }
}

/// The member ordinal that a group target lands on, for rewriting it. Other
/// kinds give `None` and stay as they are.
pub fn group_target_member_mut(kind: &mut ModTargetKind) -> (member: Option<&mut usize>)
    ensures
        match member {
            Some(m) => member_of(*old(kind)) == Some(*m) && *final(kind) == with_member(
                *old(kind),
                *final(m),
            ),
            None => member_of(*old(kind)) is None && *final(kind) == *old(kind),
        },
{
    match kind {
        ModTargetKind::GroupMember { member, .. } => Some(member),
        ModTargetKind::GroupMemberMod { member, .. } => Some(member),
        _ => None,
    }
}

fn move_index(i: usize, from: usize, to: usize) -> (r: usize)
    ensures
        r == index_after_move(i, from, to),
{
    if i == from {
        to
    } else if from < to && i > from && i <= to {
        i - 1
    } else if from > to && i >= to && i < from {
        i + 1
    } else {
        i
    }
}

/// What a target kind becomes after an edit; `None` drops it.
pub fn retarget_kind(kind: ModTargetKind, edit: RackEdit) -> (r: Option<ModTargetKind>)
    requires
        edit_fits(kind, edit),
    ensures
        r == kind_after(kind, edit),
{
    let mut kind = kind;
    match edit {
        RackEdit::ModulatorRemoved { removed } => {
            if cross_mod_index(&kind) == Some(removed) {
                return None;
            }
            adjust_cross_mod_index(&mut kind, removed);
        },
        RackEdit::EffectInserted { at } => {
            if let ModTargetKind::PluginParam { slot, param_index } = kind {
                if slot > at {
                    kind = ModTargetKind::PluginParam { slot: slot + 1, param_index };
                }
            }
        },
        RackEdit::EffectRemoved { removed } => {
            let removed_slot: usize = removed + 1;
            if let ModTargetKind::PluginParam { slot, param_index } = kind {
                if slot == removed_slot {
                    return None;
                }
                if slot > removed_slot {
                    kind = ModTargetKind::PluginParam { slot: slot - 1, param_index };
                }
            }
        },
        RackEdit::EffectMoved { from, to } => {
            if let ModTargetKind::PluginParam { slot, param_index } = kind {
                if slot >= 1 {
                    let e: usize = move_index(slot - 1, from, to);
                    kind = ModTargetKind::PluginParam { slot: e + 1, param_index };
                }
            }
        },
        RackEdit::MemberRemoved { removed } => {
            if let Some(member) = group_target_member_mut(&mut kind) {
                if *member == removed {
                    return None;
                }
                if *member > removed {
                    *member = *member - 1;
                }
            }
        },
        RackEdit::MemberInserted { inserted } => {
            if let Some(member) = group_target_member_mut(&mut kind) {
                if *member >= inserted {
                    *member = *member + 1;
                }
            }
        },
        RackEdit::MemberModulatorRemoved { member, removed } => {
            if let ModTargetKind::GroupMemberMod { member: m, mod_index, field } = kind {
                if m == member {
                    if mod_index == removed {
                        return None;
                    }
                    if mod_index > removed {
                        kind = ModTargetKind::GroupMemberMod {
                            member: m,
                            mod_index: mod_index - 1,
                            field,
                        };
                    }
                }
            }
        },
        RackEdit::BusEffectRemoved { removed } => {
            if let ModTargetKind::GroupBus { effect_index, param_index } = kind {
                if effect_index == removed {
                    return None;
                }
                if effect_index > removed {
                    kind = ModTargetKind::GroupBus { effect_index: effect_index - 1, param_index };
                }
            }
        },
        RackEdit::BusEffectMoved { from, to } => {
            if let ModTargetKind::GroupBus { effect_index, param_index } = kind {
                let e: usize = move_index(effect_index, from, to);
                kind = ModTargetKind::GroupBus { effect_index: e, param_index };
            }
        },
    }
    Some(kind)
}

/// Carry an edit through a rack: drop the targets whose object is gone and
/// rewrite the indices of the others.
pub fn retarget(mods: &mut Vec<Modulator>, edit: RackEdit)
    requires
        rack_edit_fits(rack(old(mods)@), edit),
    ensures
        rack(final(mods)@) == rack_after(rack(old(mods)@), edit),
{
    let ghost before = mods@;
    let mut i: usize = 0;
    while i < mods.len()
        invariant
            mods.len() == before.len(),
            i <= mods.len(),
            rack_edit_fits(rack(before), edit),
            forall|k: int|
                0 <= k < i ==> #[trigger] mods@[k]@ == rack_after(rack(before), edit)[k],
            forall|k: int| i <= k < mods.len() ==> mods@[k] == before[k],
        decreases mods.len() - i,
    {
        let mut kept: Vec<ModTarget> = Vec::new();
        let mut j: usize = 0;
        let ghost targets = mods@[i as int].targets@;
        assert(rack(before)[i as int].targets == targets);
        while j < mods[i].targets.len()
            invariant
                i < mods.len(),
                mods@[i as int].targets@ == targets,
                j <= targets.len(),
                forall|k: int|
                    0 <= k < targets.len() ==> edit_fits(#[trigger] targets[k].kind, edit),
                kept@ == targets_after(targets.take(j as int), edit),
            decreases targets.len() - j,
        {
            let t: ModTarget = mods[i].targets[j];
            assert(targets.take(j + 1).drop_last() =~= targets.take(j as int));
            assert(targets.take(j + 1).last() == t);
            assert(edit_fits(targets[j as int].kind, edit));
            if let Some(kind) = retarget_kind(t.kind, edit) {
                kept.push(
                    ModTarget {
                        kind,
                        depth: t.depth,
                        base_value: t.base_value,
                        param_min: t.param_min,
                        param_max: t.param_max,
                    },
                );
            }
            j += 1;
        }
        assert(targets.take(targets.len() as int) =~= targets);
        mods[i].targets = kept;
        assert(mods@[i as int]@ == rack_after(rack(before), edit)[i as int]);
        i += 1;
    }
    assert(rack(mods@) =~= rack_after(rack(before), edit));
}

/// Whether every target of the rack can follow the edit.
pub fn retarget_fits(mods: &Vec<Modulator>, edit: RackEdit) -> (ok: bool)
    ensures
        ok == rack_edit_fits(rack(mods@), edit),
{
    let ghost models = rack(mods@);
    let mut i: usize = 0;
    while i < mods.len()
        invariant
            models == rack(mods@),
            i <= mods.len(),
            forall|a: int, b: int|
                0 <= a < i && 0 <= b < models[a].targets.len() ==> edit_fits(
                    #[trigger] models[a].targets[b].kind,
                    edit,
                ),
        decreases mods.len() - i,
    {
        let mut j: usize = 0;
        while j < mods[i].targets.len()
            invariant
                models == rack(mods@),
                i < mods.len(),
                j <= mods@[i as int].targets.len(),
                forall|b: int|
                    0 <= b < j ==> edit_fits(#[trigger] models[i as int].targets[b].kind, edit),
            decreases mods@[i as int].targets.len() - j,
        {
            let kind: ModTargetKind = mods[i].targets[j].kind;
            assert(kind == models[i as int].targets[j as int].kind);
            let fits: bool = match edit {
                RackEdit::EffectInserted { at } => match kind {
                    ModTargetKind::PluginParam { slot, .. } => slot <= at || slot < usize::MAX,
                    _ => true,
                },
                RackEdit::EffectRemoved { removed } => removed < usize::MAX,
                RackEdit::EffectMoved { from, to } => from < usize::MAX && to < usize::MAX,
                RackEdit::MemberInserted { inserted } => match kind {
                    ModTargetKind::GroupMember { member, .. } => member < inserted || member
                        < usize::MAX,
                    ModTargetKind::GroupMemberMod { member, .. } => member < inserted || member
                        < usize::MAX,
                    _ => true,
                },
                _ => true,
            };
            assert(fits == edit_fits(kind, edit));
            if !fits {
                return false;
            }
            j += 1;
        }
        i += 1;
    }
    true
}

// ---------------------------------------------------------------------------
// Named edits
// ---------------------------------------------------------------------------

/// After removing a modulator at `removed_index`, clean up cross-mod targets in
/// its siblings: drop targets pointing at it and decrement higher indices.
pub fn fixup_cross_mod_after_remove(modulators: &mut Vec<Modulator>, removed_index: usize)
    ensures
        rack(final(modulators)@) == rack_after(
            rack(old(modulators)@),
            RackEdit::ModulatorRemoved { removed: removed_index },
        ),
{
    retarget(modulators, RackEdit::ModulatorRemoved { removed: removed_index });
}

/// After an effect is inserted at effect index `at`, bump plugin-param target
/// slots so they keep pointing at the same plugins.
pub fn shift_slots_after_insert(modulators: &mut Vec<Modulator>, at: usize)
    requires
        rack_edit_fits(rack(old(modulators)@), RackEdit::EffectInserted { at }),
    ensures
        rack(final(modulators)@) == rack_after(
            rack(old(modulators)@),
            RackEdit::EffectInserted { at },
        ),
{
    retarget(modulators, RackEdit::EffectInserted { at });
}

/// After the effect at index `removed` is deleted, drop targets that pointed at
/// it and shift higher slots down one.
pub fn fixup_slots_after_remove(modulators: &mut Vec<Modulator>, removed: usize)
    requires
        removed < usize::MAX,
    ensures
        rack(final(modulators)@) == rack_after(
            rack(old(modulators)@),
            RackEdit::EffectRemoved { removed },
        ),
{
    retarget(modulators, RackEdit::EffectRemoved { removed });
}

/// After the effect at `from` moves to `to`, remap plugin-param target slots
/// through the same permutation so they follow their plugins.
pub fn remap_slots_after_reorder(modulators: &mut Vec<Modulator>, from: usize, to: usize)
    requires
        from < usize::MAX,
        to < usize::MAX,
    ensures
        rack(final(modulators)@) == rack_after(
            rack(old(modulators)@),
            RackEdit::EffectMoved { from, to },
        ),
{
    retarget(modulators, RackEdit::EffectMoved { from, to });
}

/// After the member at ordinal `removed` leaves a group, drop group targets
/// pointing at it and shift higher ordinals down one.
pub fn fixup_group_member_after_remove(modulators: &mut Vec<Modulator>, removed: usize)
    ensures
        rack(final(modulators)@) == rack_after(
            rack(old(modulators)@),
            RackEdit::MemberRemoved { removed },
        ),
{
    retarget(modulators, RackEdit::MemberRemoved { removed });
}

/// After member `member`'s modulator at `removed` is deleted, drop group
/// targets pointing at it and shift that member's higher modulator indices.
pub fn fixup_group_member_mod_after_remove(
    modulators: &mut Vec<Modulator>,
    member: usize,
    removed: usize,
)
    ensures
        rack(final(modulators)@) == rack_after(
            rack(old(modulators)@),
            RackEdit::MemberModulatorRemoved { member, removed },
        ),
{
    retarget(modulators, RackEdit::MemberModulatorRemoved { member, removed });
}

/// After a member joins a group at ordinal `inserted`, bump member ordinals
/// at/after it so existing targets keep pointing at their members.
pub fn shift_group_member_after_insert(modulators: &mut Vec<Modulator>, inserted: usize)
    requires
        rack_edit_fits(rack(old(modulators)@), RackEdit::MemberInserted { inserted }),
    ensures
        rack(final(modulators)@) == rack_after(
            rack(old(modulators)@),
            RackEdit::MemberInserted { inserted },
        ),
{
    retarget(modulators, RackEdit::MemberInserted { inserted });
}

/// After bus effect `removed` is deleted, drop bus targets on it and shift
/// higher effect indices down one.
pub fn fixup_group_bus_after_remove(modulators: &mut Vec<Modulator>, removed: usize)
    ensures
        rack(final(modulators)@) == rack_after(
            rack(old(modulators)@),
            RackEdit::BusEffectRemoved { removed },
        ),
{
    retarget(modulators, RackEdit::BusEffectRemoved { removed });
}

/// After a bus effect moves from `from` to `to`, remap bus effect indices
/// through the same permutation so targets follow their effects.
pub fn remap_group_bus_after_reorder(modulators: &mut Vec<Modulator>, from: usize, to: usize)
    ensures
        rack(final(modulators)@) == rack_after(
            rack(old(modulators)@),
            RackEdit::BusEffectMoved { from, to },
        ),
{
    retarget(modulators, RackEdit::BusEffectMoved { from, to });
}

// ---------------------------------------------------------------------------
// Base values
// ---------------------------------------------------------------------------

/// The target kind that drives `field` of sibling modulator `mod_index`.
pub open spec fn sibling_field(mod_index: usize, field: CrossModField) -> ModTargetKind {
    match field {
        CrossModField::Rate => ModTargetKind::ModulatorRate { mod_index },
        CrossModField::Attack => ModTargetKind::ModulatorAttack { mod_index },
        CrossModField::Decay => ModTargetKind::ModulatorDecay { mod_index },
        CrossModField::Sustain => ModTargetKind::ModulatorSustain { mod_index },
        CrossModField::Release => ModTargetKind::ModulatorRelease { mod_index },
        CrossModField::Depth(target_index) => ModTargetKind::ModulatorDepth {
            mod_index,
            target_index,
        },
    }
}

/// A target list in which the targets of kind `kind` are centred on `value`.
pub open spec fn targets_rebased(
    targets: Seq<ModTarget>,
    kind: ModTargetKind,
    value: F32Bits,
) -> Seq<ModTarget> {
    Seq::new(
        targets.len(),
        |j: int|
            if targets[j].kind == kind {
                ModTarget { base_value: value, ..targets[j] }
            } else {
                targets[j]
            },
    )
}

/// A rack in which every target of kind `kind` is centred on `value`.
pub open spec fn rack_rebased(
    mods: Seq<ModulatorModel>,
    kind: ModTargetKind,
    value: F32Bits,
) -> Seq<ModulatorModel> {
    Seq::new(
        mods.len(),
        |i: int|
            ModulatorModel { targets: targets_rebased(mods[i].targets, kind, value), ..mods[i] },
    )
}

/// Centre every target of kind `kind` on `value`.
pub fn rebase(mods: &mut Vec<Modulator>, kind: ModTargetKind, value: F32Bits)
    ensures
        rack(final(mods)@) == rack_rebased(rack(old(mods)@), kind, value),
{
    let ghost before = mods@;
    let mut i: usize = 0;
    while i < mods.len()
        invariant
            mods.len() == before.len(),
            i <= mods.len(),
            forall|k: int|
                0 <= k < i ==> #[trigger] mods@[k]@ == rack_rebased(rack(before), kind, value)[k],
            forall|k: int| i <= k < mods.len() ==> mods@[k] == before[k],
        decreases mods.len() - i,
    {
        let ghost mid = mods@;
        let mut j: usize = 0;
        while j < mods[i].targets.len()
            invariant
                mods.len() == mid.len(),
                i < mods.len(),
                mods@[i as int].targets.len() == mid[i as int].targets.len(),
                j <= mods@[i as int].targets.len(),
                mods@[i as int].source == mid[i as int].source,
                mods@[i as int].sample_rate == mid[i as int].sample_rate,
                mods@[i as int].last_output == mid[i as int].last_output,
                forall|k: int| 0 <= k < mods.len() && k != i ==> mods@[k] == mid[k],
                forall|k: int|
                    0 <= k < j ==> #[trigger] mods@[i as int].targets@[k] == targets_rebased(
                        mid[i as int].targets@,
                        kind,
                        value,
                    )[k],
                forall|k: int|
                    j <= k < mods@[i as int].targets.len() ==> mods@[i as int].targets@[k]
                        == mid[i as int].targets@[k],
            decreases mods@[i as int].targets.len() - j,
        {
            if mods[i].targets[j].kind == kind {
                mods[i].targets[j].base_value = value;
            }
            j += 1;
        }
        assert(mods@[i as int].targets@ =~= targets_rebased(mid[i as int].targets@, kind, value));
        assert(mods@[i as int]@ == rack_rebased(rack(before), kind, value)[i as int]);
        assert forall|k: int| 0 <= k < i implies #[trigger] mods@[k]@ == rack_rebased(
            rack(before),
            kind,
            value,
        )[k] by {
            assert(mid[k]@ == rack_rebased(rack(before), kind, value)[k]);
        }
        i += 1;
    }
    assert(rack(mods@) =~= rack_rebased(rack(before), kind, value));
}

/// When a modulator field is set by the user, re-centre the cross-mod targets
/// pointing at that field.
pub fn update_cross_mod_base(
    modulators: &mut Vec<Modulator>,
    target_mod_index: usize,
    field: CrossModField,
    value: F32Bits,
)
    ensures
        rack(final(modulators)@) == rack_rebased(
            rack(old(modulators)@),
            sibling_field(target_mod_index, field),
            value,
        ),
{
    let mod_index: usize = target_mod_index;
    let kind: ModTargetKind = match field {
        CrossModField::Rate => ModTargetKind::ModulatorRate { mod_index },
        CrossModField::Attack => ModTargetKind::ModulatorAttack { mod_index },
        CrossModField::Decay => ModTargetKind::ModulatorDecay { mod_index },
        CrossModField::Sustain => ModTargetKind::ModulatorSustain { mod_index },
        CrossModField::Release => ModTargetKind::ModulatorRelease { mod_index },
        CrossModField::Depth(target_index) => ModTargetKind::ModulatorDepth {
            mod_index,
            target_index,
        },
    };
    rebase(modulators, kind, value);
}

/// Re-centre the group targets on one member parameter after the user sets it.
pub fn update_group_member_base(
    modulators: &mut Vec<Modulator>,
    member: usize,
    slot: usize,
    param_index: u32,
    value: F32Bits,
)
    ensures
        rack(final(modulators)@) == rack_rebased(
            rack(old(modulators)@),
            ModTargetKind::GroupMember { member, slot, param_index },
            value,
        ),
{
    rebase(modulators, ModTargetKind::GroupMember { member, slot, param_index }, value);
}

/// Re-centre the group targets on one bus-effect parameter after the user sets
/// it.
pub fn update_group_bus_base(
    modulators: &mut Vec<Modulator>,
    effect_index: usize,
    param_index: u32,
    value: F32Bits,
)
    ensures
        rack(final(modulators)@) == rack_rebased(
            rack(old(modulators)@),
            ModTargetKind::GroupBus { effect_index, param_index },
            value,
        ),
{
    rebase(modulators, ModTargetKind::GroupBus { effect_index, param_index }, value);
}

/// Re-centre the group targets on one field of a member's modulator after the
/// user changes it.
pub fn update_group_member_mod_base(
    modulators: &mut Vec<Modulator>,
    member: usize,
    mod_index: usize,
    field: CrossModField,
    value: F32Bits,
)
    ensures
        rack(final(modulators)@) == rack_rebased(
            rack(old(modulators)@),
            ModTargetKind::GroupMemberMod { member, mod_index, field },
            value,
        ),
{
    rebase(modulators, ModTargetKind::GroupMemberMod { member, mod_index, field }, value);
}

// ---------------------------------------------------------------------------
// Cross-modulation
// ---------------------------------------------------------------------------

/// A modulator after `value` is written to `field`. A field that the source
/// does not have leaves it as it is, and so does a target index out of range.
pub open spec fn field_written(
    m: ModulatorModel,
    field: CrossModField,
    value: F32Bits,
) -> ModulatorModel {
    match (field, m.source) {
        (CrossModField::Rate, ModSource::Lfo { waveform, phase, .. }) => ModulatorModel {
            source: ModSource::Lfo { waveform, rate: value, phase },
            ..m
        },
        (
            CrossModField::Attack,
            ModSource::Envelope { decay, sustain, release, state, level, notes_held, .. },
        ) => ModulatorModel {
            source: ModSource::Envelope {
                attack: value,
                decay,
                sustain,
                release,
                state,
                level,
                notes_held,
            },
            ..m
        },
        (
            CrossModField::Decay,
            ModSource::Envelope { attack, sustain, release, state, level, notes_held, .. },
        ) => ModulatorModel {
            source: ModSource::Envelope {
                attack,
                decay: value,
                sustain,
                release,
                state,
                level,
                notes_held,
            },
            ..m
        },
        (
            CrossModField::Sustain,
            ModSource::Envelope { attack, decay, release, state, level, notes_held, .. },
        ) => ModulatorModel {
            source: ModSource::Envelope {
                attack,
                decay,
                sustain: value,
                release,
                state,
                level,
                notes_held,
            },
            ..m
        },
        (
            CrossModField::Release,
            ModSource::Envelope { attack, decay, sustain, state, level, notes_held, .. },
        ) => ModulatorModel {
            source: ModSource::Envelope {
                attack,
                decay,
                sustain,
                release: value,
                state,
                level,
                notes_held,
            },
            ..m
        },
        (CrossModField::Depth(t), _) => if t < m.targets.len() {
            ModulatorModel {
                targets: m.targets.update(
                    t as int,
                    ModTarget { depth: value, ..m.targets[t as int] },
                ),
                ..m
            }
        } else {
            m
        },
        _ => m,
    }
}

/// Write a cross-mod value into a modulator's field.
pub fn apply_cross_mod_field(m: &mut Modulator, field: CrossModField, value: F32Bits)
    ensures
        final(m)@ == field_written(old(m)@, field, value),
{
    match field {
        CrossModField::Rate => {
            if let ModSource::Lfo { rate, .. } = &mut m.source {
                *rate = value;
            }
        },
        CrossModField::Attack => {
            if let ModSource::Envelope { attack, .. } = &mut m.source {
                *attack = value;
            }
        },
        CrossModField::Decay => {
            if let ModSource::Envelope { decay, .. } = &mut m.source {
                *decay = value;
            }
        },
        CrossModField::Sustain => {
            if let ModSource::Envelope { sustain, .. } = &mut m.source {
                *sustain = value;
            }
        },
        CrossModField::Release => {
            if let ModSource::Envelope { release, .. } = &mut m.source {
                *release = value;
            }
        },
        CrossModField::Depth(target_index) => {
            if target_index < m.targets.len() {
                m.targets[target_index].depth = value;
            }
        },
    }
}

} // verus!
