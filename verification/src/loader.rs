//! Building modulators from a session: which commands set them up, and what
//! the user interface shows of them.

use vstd::prelude::*;

use crate::command::GraphCommand;
use crate::config::{
    chain_list, mod_config_list, param_list, ModConfigModel, InstrumentSlotConfig,
    ModTargetConfig, ModulatorConfig, ParamModel, ParameterInfo, TargetModel,
};
use crate::modulation::{
    waveform_named, CrossModField, EnvState, LfoWaveform, ModSource, ModTarget, ModTargetKind,
};
use crate::scalar::{F32Bits, ONE};
use crate::text::{dec, push_dec, same_text};

verus! {

// Ranges and defaults of modulator fields, as bits.

/// 0.001
pub const THOUSANDTH: u32 = 0x3a83_126f;

/// 0.01
pub const HUNDREDTH: u32 = 0x3c23_d70a;

/// 0.3
pub const THREE_TENTHS: u32 = 0x3e99_999a;

/// 0.5
pub const HALF: u32 = 0x3f00_0000;

/// 0.7
pub const SEVEN_TENTHS: u32 = 0x3f33_3333;

/// 10.0
pub const TEN: u32 = 0x4120_0000;

/// 50.0
pub const FIFTY: u32 = 0x4248_0000;

/// A modulation target as the user interface shows it.
#[derive(Debug)]
pub struct LoadedModTarget {
    /// Chain slot of a plugin parameter.
    pub slot: usize,
    pub param_name: String,
    pub kind: ModTargetKind,
    pub depth: F32Bits,
    pub param_min: F32Bits,
    pub param_max: F32Bits,
}

/// What a shown target holds.
pub struct LoadedTargetModel {
    pub slot: usize,
    pub param_name: Seq<char>,
    pub kind: ModTargetKind,
    pub depth: F32Bits,
    pub param_min: F32Bits,
    pub param_max: F32Bits,
}

impl View for LoadedModTarget {
    type V = LoadedTargetModel;

    open spec fn view(&self) -> LoadedTargetModel {
        LoadedTargetModel {
            slot: self.slot,
            param_name: self.param_name@,
            kind: self.kind,
            depth: self.depth,
            param_min: self.param_min,
            param_max: self.param_max,
        }
    }
}

/// A modulator's source as the user interface shows it.
#[derive(Clone, Copy, Debug, PartialEq, Eq, Structural)]
pub enum LoadedModSource {
    Lfo { waveform: LfoWaveform, rate: F32Bits },
    Envelope { attack: F32Bits, decay: F32Bits, sustain: F32Bits, release: F32Bits },
}

/// A modulator as the user interface shows it.
#[derive(Debug)]
pub struct LoadedModulator {
    pub source: LoadedModSource,
    pub targets: Vec<LoadedModTarget>,
}

/// What a shown modulator holds.
pub struct LoadedModel {
    pub source: LoadedModSource,
    pub targets: Seq<LoadedTargetModel>,
}

/// Shown targets as a sequence of models.
pub open spec fn loaded_targets(targets: Seq<LoadedModTarget>) -> Seq<LoadedTargetModel> {
    Seq::new(targets.len(), |i: int| targets[i]@)
}

impl View for LoadedModulator {
    type V = LoadedModel;

    open spec fn view(&self) -> LoadedModel {
        LoadedModel { source: self.source, targets: loaded_targets(self.targets@) }
    }
}

/// Shown modulators as a sequence of models.
pub open spec fn loaded_list(mods: Seq<LoadedModulator>) -> Seq<LoadedModel> {
    Seq::new(mods.len(), |i: int| mods[i]@)
}

/// Commands that set a rack up, and what is shown of it.
#[derive(Debug)]
pub struct LoadedRack {
    pub commands: Vec<GraphCommand>,
    pub modulators: Vec<LoadedModulator>,
}

// ---------------------------------------------------------------------------
// Sources
// ---------------------------------------------------------------------------

/// The waveform of a configured LFO; an unknown one is a sine.
pub open spec fn config_waveform(m: ModConfigModel) -> LfoWaveform {
    match waveform_named(m.waveform) {
        Some(w) => w,
        None => LfoWaveform::Sine,
    }
}

/// The source that a configuration gives: an idle envelope, or an LFO at the
/// start of its cycle.
pub open spec fn config_source(m: ModConfigModel) -> ModSource {
    if m.mod_type == "envelope"@ {
        ModSource::Envelope {
            attack: m.attack,
            decay: m.decay,
            sustain: m.sustain,
            release: m.release,
            state: EnvState::Idle,
            level: F32Bits { bits: 0 },
            notes_held: 0,
        }
    } else {
        ModSource::Lfo {
            waveform: config_waveform(m),
            rate: m.rate,
            phase: F32Bits { bits: 0 },
        }
    }
}

/// The source that is shown for a configuration.
pub open spec fn config_shown(m: ModConfigModel) -> LoadedModSource {
    if m.mod_type == "envelope"@ {
        LoadedModSource::Envelope {
            attack: m.attack,
            decay: m.decay,
            sustain: m.sustain,
            release: m.release,
        }
    } else {
        LoadedModSource::Lfo { waveform: config_waveform(m), rate: m.rate }
    }
}

/// Build the source of a configured modulator, for the graph and for show.
pub fn build_mod_source(mod_config: &ModulatorConfig) -> (r: (ModSource, LoadedModSource))
    ensures
        r == (config_source(mod_config@), config_shown(mod_config@)),
{
    if same_text(mod_config.mod_type.as_str(), "envelope") {
        (
            ModSource::Envelope {
                attack: mod_config.attack,
                decay: mod_config.decay,
                sustain: mod_config.sustain,
                release: mod_config.release,
                state: EnvState::Idle,
                level: F32Bits { bits: 0 },
                notes_held: 0,
            },
            LoadedModSource::Envelope {
                attack: mod_config.attack,
                decay: mod_config.decay,
                sustain: mod_config.sustain,
                release: mod_config.release,
            },
        )
    } else {
        let waveform: LfoWaveform = match LfoWaveform::from_str(mod_config.waveform.as_str()) {
            Some(w) => w,
            None => LfoWaveform::Sine,
        };
        (
            ModSource::Lfo { waveform, rate: mod_config.rate, phase: F32Bits { bits: 0 } },
            LoadedModSource::Lfo { waveform, rate: mod_config.rate },
        )
    }
}

// ---------------------------------------------------------------------------
// Targets
// ---------------------------------------------------------------------------

/// A target whose object has been found.
#[derive(Debug)]
pub struct ResolvedTarget {
    pub kind: ModTargetKind,
    pub slot: usize,
    pub label: String,
    pub min: F32Bits,
    pub max: F32Bits,
    pub base: F32Bits,
    pub depth: F32Bits,
}

/// What a resolved target holds.
pub struct ResolvedModel {
    pub kind: ModTargetKind,
    pub slot: usize,
    pub label: Seq<char>,
    pub min: F32Bits,
    pub max: F32Bits,
    pub base: F32Bits,
    pub depth: F32Bits,
}

impl View for ResolvedTarget {
    type V = ResolvedModel;

    open spec fn view(&self) -> ResolvedModel {
        ResolvedModel {
            kind: self.kind,
            slot: self.slot,
            label: self.label@,
            min: self.min,
            max: self.max,
            base: self.base,
            depth: self.depth,
        }
    }
}

/// The model of an optional target.
pub open spec fn resolved_view(r: Option<ResolvedTarget>) -> Option<ResolvedModel> {
    match r {
        Some(t) => Some(t@),
        None => None,
    }
}

/// Targets as a sequence of models.
pub open spec fn resolved_list(targets: Seq<ResolvedTarget>) -> Seq<ResolvedModel> {
    Seq::new(targets.len(), |i: int| targets[i]@)
}

/// The first of the first `n` parameters with a name.
pub open spec fn param_named(params: Seq<ParamModel>, name: Seq<char>, n: nat) -> Option<ParamModel>
    decreases n,
{
    if n == 0 {
        None
    } else {
        match param_named(params, name, (n - 1) as nat) {
            Some(p) => Some(p),
            None => if params[n - 1].name == name {
                Some(params[n - 1])
            } else {
                None
            },
        }
    }
}

/// A target on a plugin parameter.
pub open spec fn param_target(
    kind: ModTargetKind,
    slot: usize,
    p: ParamModel,
    depth: F32Bits,
) -> ResolvedModel {
    ResolvedModel { kind, slot, label: p.name, min: p.min, max: p.max, base: p.default, depth }
}

/// The lowest and highest value of a modulator field.
pub open spec fn field_range(field: CrossModField) -> (F32Bits, F32Bits) {
    match field {
        CrossModField::Rate => (F32Bits { bits: HUNDREDTH }, F32Bits { bits: FIFTY }),
        CrossModField::Sustain => (F32Bits { bits: 0 }, F32Bits { bits: ONE }),
        CrossModField::Depth(_) => (F32Bits { bits: 0 }, F32Bits { bits: ONE }),
        _ => (F32Bits { bits: THOUSANDTH }, F32Bits { bits: TEN }),
    }
}

/// The usual value of a modulator field.
pub open spec fn field_default(field: CrossModField) -> F32Bits {
    match field {
        CrossModField::Rate => F32Bits { bits: ONE },
        CrossModField::Attack => F32Bits { bits: HUNDREDTH },
        CrossModField::Decay => F32Bits { bits: THREE_TENTHS },
        CrossModField::Sustain => F32Bits { bits: SEVEN_TENTHS },
        CrossModField::Release => F32Bits { bits: HALF },
        CrossModField::Depth(_) => F32Bits { bits: HALF },
    }
}

/// The name of a modulator field.
pub open spec fn field_name(field: CrossModField) -> Seq<char> {
    match field {
        CrossModField::Rate => "rate"@,
        CrossModField::Attack => "attack"@,
        CrossModField::Decay => "decay"@,
        CrossModField::Sustain => "sustain"@,
        CrossModField::Release => "release"@,
        CrossModField::Depth(ti) => "depth "@ + dec(ti as nat),
    }
}

fn name_of_field(field: CrossModField) -> (name: String)
    ensures
        name@ == field_name(field),
{
    match field {
        CrossModField::Rate => "rate".to_owned(),
        CrossModField::Attack => "attack".to_owned(),
        CrossModField::Decay => "decay".to_owned(),
        CrossModField::Sustain => "sustain".to_owned(),
        CrossModField::Release => "release".to_owned(),
        CrossModField::Depth(ti) => {
            let mut name: String = "depth ".to_owned();
            push_dec(&mut name, ti as u64);
            name
        },
    }
}

fn range_of_field(field: CrossModField) -> (r: (F32Bits, F32Bits))
    ensures
        r == field_range(field),
{
    match field {
        CrossModField::Rate => (F32Bits { bits: HUNDREDTH }, F32Bits { bits: FIFTY }),
        CrossModField::Sustain => (F32Bits { bits: 0 }, F32Bits { bits: ONE }),
        CrossModField::Depth(_) => (F32Bits { bits: 0 }, F32Bits { bits: ONE }),
        _ => (F32Bits { bits: THOUSANDTH }, F32Bits { bits: TEN }),
    }
}

fn default_of_field(field: CrossModField) -> (r: F32Bits)
    ensures
        r == field_default(field),
{
    match field {
        CrossModField::Rate => F32Bits { bits: ONE },
        CrossModField::Attack => F32Bits { bits: HUNDREDTH },
        CrossModField::Decay => F32Bits { bits: THREE_TENTHS },
        CrossModField::Sustain => F32Bits { bits: SEVEN_TENTHS },
        CrossModField::Release => F32Bits { bits: HALF },
        CrossModField::Depth(_) => F32Bits { bits: HALF },
    }
}

/// An element of a pair that may be too short.
pub open spec fn pair_item(pair: Seq<usize>, i: int) -> usize {
    if i < pair.len() {
        pair[i]
    } else {
        0
    }
}

/// The sibling modulator and field that a target names, by priority.
pub open spec fn sibling_named(t: TargetModel) -> Option<(usize, CrossModField)> {
    if t.mod_rate is Some {
        Some((t.mod_rate->0, CrossModField::Rate))
    } else if t.mod_depth is Some {
        let pair = t.mod_depth->0;
        Some((pair_item(pair, 0), CrossModField::Depth(pair_item(pair, 1))))
    } else if t.mod_attack is Some {
        Some((t.mod_attack->0, CrossModField::Attack))
    } else if t.mod_decay is Some {
        Some((t.mod_decay->0, CrossModField::Decay))
    } else if t.mod_sustain is Some {
        Some((t.mod_sustain->0, CrossModField::Sustain))
    } else if t.mod_release is Some {
        Some((t.mod_release->0, CrossModField::Release))
    } else {
        None
    }
}

/// The member modulator and field that a group target names, by priority.
pub open spec fn member_mod_named(t: TargetModel) -> Option<(usize, CrossModField)> {
    if t.mod_rate is Some {
        Some((t.mod_rate->0, CrossModField::Rate))
    } else if t.mod_attack is Some {
        Some((t.mod_attack->0, CrossModField::Attack))
    } else if t.mod_decay is Some {
        Some((t.mod_decay->0, CrossModField::Decay))
    } else if t.mod_sustain is Some {
        Some((t.mod_sustain->0, CrossModField::Sustain))
    } else if t.mod_release is Some {
        Some((t.mod_release->0, CrossModField::Release))
    } else if t.mod_depth is Some {
        let pair = t.mod_depth->0;
        Some((pair_item(pair, 0), CrossModField::Depth(pair_item(pair, 1))))
    } else {
        None
    }
}

/// A target on a sibling modulator, whose index counts from `first`.
pub open spec fn sibling_target(t: TargetModel, first: int) -> Option<ResolvedModel> {
    match sibling_named(t) {
        Some((index, field)) => {
            let mod_index = (index + first) as usize;
            Some(
                ResolvedModel {
                    kind: crate::modulation::sibling_field(mod_index, field),
                    slot: 0,
                    label: "Mod "@ + dec(mod_index as nat) + " "@ + field_name(field),
                    min: field_range(field).0,
                    max: field_range(field).1,
                    base: field_default(field),
                    depth: t.depth,
                },
            )
        },
        None => None,
    }
}

/// What a target of a lane's modulator drives. Modulators of the instrument
/// (`own_slot` 0) name a slot; those of an effect drive that effect. Sibling
/// indices count from `first`.
pub open spec fn lane_target(
    t: TargetModel,
    chain: Seq<Seq<ParamModel>>,
    own_slot: usize,
    first: int,
) -> Option<ResolvedModel> {
    match t.param {
        Some(name) => {
            let slot = if own_slot == 0 {
                t.slot
            } else {
                own_slot
            };
            if slot < chain.len() {
                match param_named(chain[slot as int], name, chain[slot as int].len()) {
                    Some(p) => Some(
                        param_target(
                            ModTargetKind::PluginParam { slot, param_index: p.index },
                            slot,
                            p,
                            t.depth,
                        ),
                    ),
                    None => None,
                }
            } else {
                None
            }
        },
        None => sibling_target(t, first),
    }
}

/// Base value and range of a field of a member's modulator. A field that the
/// modulator does not have takes its usual value.
pub open spec fn member_field(m: LoadedModel, field: CrossModField) -> F32Bits {
    match (field, m.source) {
        (CrossModField::Rate, LoadedModSource::Lfo { rate, .. }) => rate,
        (CrossModField::Attack, LoadedModSource::Envelope { attack, .. }) => attack,
        (CrossModField::Decay, LoadedModSource::Envelope { decay, .. }) => decay,
        (CrossModField::Sustain, LoadedModSource::Envelope { sustain, .. }) => sustain,
        (CrossModField::Release, LoadedModSource::Envelope { release, .. }) => release,
        (CrossModField::Depth(ti), _) => if ti < m.targets.len() {
            m.targets[ti as int].depth
        } else {
            field_default(field)
        },
        _ => field_default(field),
    }
}

/// A group target on a modulator of member `member`.
pub open spec fn member_mod_target(
    t: TargetModel,
    member: usize,
    member_mods: Seq<Seq<LoadedModel>>,
) -> Option<ResolvedModel> {
    match member_mod_named(t) {
        Some((mod_index, field)) => if member < member_mods.len() && mod_index
            < member_mods[member as int].len() {
            Some(
                ResolvedModel {
                    kind: ModTargetKind::GroupMemberMod { member, mod_index, field },
                    slot: 0,
                    label: "M"@ + dec(member as nat) + " Mod"@ + dec(mod_index as nat) + " "@
                        + field_name(field),
                    min: field_range(field).0,
                    max: field_range(field).1,
                    base: member_field(member_mods[member as int][mod_index as int], field),
                    depth: t.depth,
                },
            )
        } else {
            None
        },
        None => None,
    }
}

/// What a target of a group's modulator drives.
pub open spec fn group_target(
    t: TargetModel,
    member_chains: Seq<Seq<Seq<ParamModel>>>,
    member_mods: Seq<Seq<LoadedModel>>,
    bus_params: Seq<Seq<ParamModel>>,
) -> Option<ResolvedModel> {
    match t.member {
        Some(member) => match t.param {
            Some(name) => if member < member_chains.len() && t.slot
                < member_chains[member as int].len() {
                let params = member_chains[member as int][t.slot as int];
                match param_named(params, name, params.len()) {
                    Some(p) => Some(
                        param_target(
                            ModTargetKind::GroupMember {
                                member,
                                slot: t.slot,
                                param_index: p.index,
                            },
                            t.slot,
                            p,
                            t.depth,
                        ),
                    ),
                    None => None,
                }
            } else {
                None
            },
            None => member_mod_target(t, member, member_mods),
        },
        None => match t.bus {
            Some(bus) => match t.param {
                Some(name) => if bus < bus_params.len() {
                    let params = bus_params[bus as int];
                    match param_named(params, name, params.len()) {
                        Some(p) => Some(
                            param_target(
                                ModTargetKind::GroupBus {
                                    effect_index: bus,
                                    param_index: p.index,
                                },
                                0,
                                p,
                                t.depth,
                            ),
                        ),
                        None => None,
                    }
                } else {
                    None
                },
                None => None,
            },
            None => sibling_target(t, 0),
        },
    }
}

fn find_param<'a>(params: &'a Vec<ParameterInfo>, name: &str) -> (found: Option<&'a ParameterInfo>)
    ensures
        match found {
            Some(p) => param_named(param_list(params@), name@, params.len() as nat) == Some(p@),
            None => param_named(param_list(params@), name@, params.len() as nat) is None,
        },
{
    let ghost list = param_list(params@);
    let mut i: usize = 0;
    while i < params.len()
        invariant
            list == param_list(params@),
            i <= params.len(),
            param_named(list, name@, i as nat) is None,
        decreases params.len() - i,
    {
        assert(list[i as int] == params@[i as int]@);
        if same_text(params[i].name.as_str(), name) {
            proof {
                param_settled(list, name@, (i + 1) as nat, list.len());
            }
            return Some(&params[i]);
        }
        i += 1;
    }
    None
}

proof fn param_settled(params: Seq<ParamModel>, name: Seq<char>, n: nat, all: nat)
    requires
        n <= all,
        param_named(params, name, n) is Some,
    ensures
        param_named(params, name, all) == param_named(params, name, n),
    decreases all - n,
{
    if n < all {
        param_settled(params, name, n + 1, all);
    }
}

fn on_param(kind: ModTargetKind, slot: usize, p: &ParameterInfo, depth: F32Bits) -> (r:
    ResolvedTarget)
    ensures
        r@ == param_target(kind, slot, p@, depth),
{
    ResolvedTarget {
        kind,
        slot,
        label: p.name.clone(),
        min: p.min,
        max: p.max,
        base: p.default,
        depth,
    }
}

fn item_of_pair(pair: &Vec<usize>, i: usize) -> (n: usize)
    ensures
        n == pair_item(pair@, i as int),
{
    if i < pair.len() {
        pair[i]
    } else {
        0
    }
}

fn named_sibling(t: &ModTargetConfig) -> (r: Option<(usize, CrossModField)>)
    ensures
        r == sibling_named(t@),
{
    if let Some(mi) = t.mod_rate {
        Some((mi, CrossModField::Rate))
    } else if let Some(pair) = &t.mod_depth {
        Some((item_of_pair(pair, 0), CrossModField::Depth(item_of_pair(pair, 1))))
    } else if let Some(mi) = t.mod_attack {
        Some((mi, CrossModField::Attack))
    } else if let Some(mi) = t.mod_decay {
        Some((mi, CrossModField::Decay))
    } else if let Some(mi) = t.mod_sustain {
        Some((mi, CrossModField::Sustain))
    } else if let Some(mi) = t.mod_release {
        Some((mi, CrossModField::Release))
    } else {
        None
    }
}

fn named_member_mod(t: &ModTargetConfig) -> (r: Option<(usize, CrossModField)>)
    ensures
        r == member_mod_named(t@),
{
    if let Some(mi) = t.mod_rate {
        Some((mi, CrossModField::Rate))
    } else if let Some(mi) = t.mod_attack {
        Some((mi, CrossModField::Attack))
    } else if let Some(mi) = t.mod_decay {
        Some((mi, CrossModField::Decay))
    } else if let Some(mi) = t.mod_sustain {
        Some((mi, CrossModField::Sustain))
    } else if let Some(mi) = t.mod_release {
        Some((mi, CrossModField::Release))
    } else if let Some(pair) = &t.mod_depth {
        Some((item_of_pair(pair, 0), CrossModField::Depth(item_of_pair(pair, 1))))
    } else {
        None
    }
}

fn resolve_sibling(t: &ModTargetConfig, first: usize) -> (r: Option<ResolvedTarget>)
    requires
        sibling_named(t@) is Some ==> (sibling_named(t@)->0).0 + first <= usize::MAX,
    ensures
        resolved_view(r) == sibling_target(t@, first as int),
{
    match named_sibling(t) {
        Some((index, field)) => {
            let mod_index: usize = index + first;
            let kind: ModTargetKind = match field {
                CrossModField::Rate => ModTargetKind::ModulatorRate { mod_index },
                CrossModField::Attack => ModTargetKind::ModulatorAttack { mod_index },
                CrossModField::Decay => ModTargetKind::ModulatorDecay { mod_index },
                CrossModField::Sustain => ModTargetKind::ModulatorSustain { mod_index },
                CrossModField::Release => ModTargetKind::ModulatorRelease { mod_index },
                CrossModField::Depth(target_index) => ModTargetKind::ModulatorDepth {
                    mod_index,
                    target_index,
                },
            };
            let mut label: String = "Mod ".to_owned();
            push_dec(&mut label, mod_index as u64);
            label.append(" ");
            label.append(name_of_field(field).as_str());
            let (min, max) = range_of_field(field);
            Some(
                ResolvedTarget {
                    kind,
                    slot: 0,
                    label,
                    min,
                    max,
                    base: default_of_field(field),
                    depth: t.depth,
                },
            )
        },
        None => None,
    }
}

/// Find what a target of a lane's modulator drives.
pub fn resolve_lane_target(
    t: &ModTargetConfig,
    chain: &Vec<Vec<ParameterInfo>>,
    own_slot: usize,
    first: usize,
) -> (r: Option<ResolvedTarget>)
    requires
        t@.param is None && sibling_named(t@) is Some ==> (sibling_named(t@)->0).0 + first
            <= usize::MAX,
    ensures
        resolved_view(r) == lane_target(t@, chain_list(chain@), own_slot, first as int),
{
    match &t.param {
        Some(name) => {
            let slot: usize = if own_slot == 0 {
                t.slot
            } else {
                own_slot
            };
            if slot < chain.len() {
                assert(chain_list(chain@)[slot as int] == param_list(chain@[slot as int]@));
                match find_param(&chain[slot], name.as_str()) {
                    Some(p) => Some(
                        on_param(
                            ModTargetKind::PluginParam { slot, param_index: p.index },
                            slot,
                            p,
                            t.depth,
                        ),
                    ),
                    None => None,
                }
            } else {
                None
            }
        },
        None => resolve_sibling(t, first),
    }
}

/// Base value and range of a field of a member's modulator.
pub fn member_mod_field_info(mm: &LoadedModulator, field: CrossModField) -> (r: (
    F32Bits,
    F32Bits,
    F32Bits,
))
    ensures
        r == (member_field(mm@, field), field_range(field).0, field_range(field).1),
{
    let (min, max) = range_of_field(field);
    let usual: F32Bits = default_of_field(field);
    let base: F32Bits = match field {
        CrossModField::Depth(ti) => {
            if ti < mm.targets.len() {
                assert(mm@.targets[ti as int] == mm.targets@[ti as int]@);
                mm.targets[ti].depth
            } else {
                usual
            }
        },
        CrossModField::Rate => match mm.source {
            LoadedModSource::Lfo { rate, .. } => rate,
            _ => usual,
        },
        CrossModField::Attack => match mm.source {
            LoadedModSource::Envelope { attack, .. } => attack,
            _ => usual,
        },
        CrossModField::Decay => match mm.source {
            LoadedModSource::Envelope { decay, .. } => decay,
            _ => usual,
        },
        CrossModField::Sustain => match mm.source {
            LoadedModSource::Envelope { sustain, .. } => sustain,
            _ => usual,
        },
        CrossModField::Release => match mm.source {
            LoadedModSource::Envelope { release, .. } => release,
            _ => usual,
        },
    };
    (base, min, max)
}

/// The chains of a group's members.
pub open spec fn member_chain_list(chains: Seq<&Vec<Vec<ParameterInfo>>>) -> Seq<
    Seq<Seq<ParamModel>>,
> {
    Seq::new(chains.len(), |i: int| chain_list(chains[i]@))
}

/// The modulators of a group's members.
pub open spec fn member_mod_list(mods: Seq<&[LoadedModulator]>) -> Seq<Seq<LoadedModel>> {
    Seq::new(mods.len(), |i: int| loaded_list(mods[i]@))
}

fn resolve_member_mod(
    t: &ModTargetConfig,
    member: usize,
    member_mods: &Vec<&[LoadedModulator]>,
) -> (r: Option<ResolvedTarget>)
    ensures
        resolved_view(r) == member_mod_target(t@, member, member_mod_list(member_mods@)),
{
    match named_member_mod(t) {
        Some((mod_index, field)) => {
            if member < member_mods.len() && mod_index < member_mods[member].len() {
                let mods: &[LoadedModulator] = member_mods[member];
                assert(member_mod_list(member_mods@)[member as int] == loaded_list(mods@));
                assert(loaded_list(mods@)[mod_index as int] == mods@[mod_index as int]@);
                let (base, min, max) = member_mod_field_info(&mods[mod_index], field);
                let mut label: String = "M".to_owned();
                push_dec(&mut label, member as u64);
                label.append(" Mod");
                push_dec(&mut label, mod_index as u64);
                label.append(" ");
                label.append(name_of_field(field).as_str());
                Some(
                    ResolvedTarget {
                        kind: ModTargetKind::GroupMemberMod { member, mod_index, field },
                        slot: 0,
                        label,
                        min,
                        max,
                        base,
                        depth: t.depth,
                    },
                )
            } else {
                None
            }
        },
        None => None,
    }
}

/// Find what a target of a group's modulator drives.
pub fn resolve_group_target(
    t: &ModTargetConfig,
    member_chains: &Vec<&Vec<Vec<ParameterInfo>>>,
    member_mods: &Vec<&[LoadedModulator]>,
    bus_params: &Vec<Vec<ParameterInfo>>,
) -> (r: Option<ResolvedTarget>)
    ensures
        resolved_view(r) == group_target(
            t@,
            member_chain_list(member_chains@),
            member_mod_list(member_mods@),
            chain_list(bus_params@),
        ),
{
    if let Some(member) = t.member {
        match &t.param {
            Some(name) => {
                if member < member_chains.len() && t.slot < member_chains[member].len() {
                    assert(member_chain_list(member_chains@)[member as int] == chain_list(
                        member_chains@[member as int]@,
                    ));
                    assert(chain_list(member_chains@[member as int]@)[t.slot as int] == param_list(
                        member_chains@[member as int]@[t.slot as int]@,
                    ));
                    match find_param(&member_chains[member][t.slot], name.as_str()) {
                        Some(p) => Some(
                            on_param(
                                ModTargetKind::GroupMember {
                                    member,
                                    slot: t.slot,
                                    param_index: p.index,
                                },
                                t.slot,
                                p,
                                t.depth,
                            ),
                        ),
                        None => None,
                    }
                } else {
                    None
                }
            },
            None => resolve_member_mod(t, member, member_mods),
        }
    } else if let Some(bus) = t.bus {
        match &t.param {
            Some(name) => {
                if bus < bus_params.len() {
                    assert(chain_list(bus_params@)[bus as int] == param_list(
                        bus_params@[bus as int]@,
                    ));
                    match find_param(&bus_params[bus], name.as_str()) {
                        Some(p) => Some(
                            on_param(
                                ModTargetKind::GroupBus {
                                    effect_index: bus,
                                    param_index: p.index,
                                },
                                0,
                                p,
                                t.depth,
                            ),
                        ),
                        None => None,
                    }
                } else {
                    None
                }
            },
            None => None,
        }
    } else {
        resolve_sibling(t, 0)
    }
}

// ---------------------------------------------------------------------------
// Racks
// ---------------------------------------------------------------------------

/// The owner of a rack.
#[derive(Clone, Copy, Debug, PartialEq, Eq, Structural)]
pub enum RackOwner {
    Lane { inst: usize },
    Group { group: usize },
}

/// The targets that could be resolved, among the first `n`.
pub open spec fn targets_resolved(
    targets: Seq<TargetModel>,
    resolve: spec_fn(TargetModel) -> Option<ResolvedModel>,
    n: nat,
) -> Seq<ResolvedModel>
    decreases n,
{
    if n == 0 {
        Seq::empty()
    } else {
        let rest = targets_resolved(targets, resolve, (n - 1) as nat);
        match resolve(targets[n - 1]) {
            Some(r) => rest.push(r),
            None => rest,
        }
    }
}

/// The graph's target for a resolved one.
pub open spec fn graph_mod_target(r: ResolvedModel) -> ModTarget {
    ModTarget {
        kind: r.kind,
        depth: r.depth,
        base_value: r.base,
        param_min: r.min,
        param_max: r.max,
    }
}

/// The shown target for a resolved one.
pub open spec fn shown_target(r: ResolvedModel) -> LoadedTargetModel {
    LoadedTargetModel {
        slot: r.slot,
        param_name: r.label,
        kind: r.kind,
        depth: r.depth,
        param_min: r.min,
        param_max: r.max,
    }
}

/// The command that inserts a modulator.
pub open spec fn insert_command(owner: RackOwner, index: usize, source: ModSource) -> GraphCommand {
    match owner {
        RackOwner::Lane { inst } => GraphCommand::InsertModulator { inst, index, source },
        RackOwner::Group { group } => GraphCommand::InsertGroupModulator { group, index, source },
    }
}

/// The command that adds a target.
pub open spec fn target_command(
    owner: RackOwner,
    mod_index: usize,
    target: ModTarget,
) -> GraphCommand {
    match owner {
        RackOwner::Lane { inst } => GraphCommand::AddModTarget { inst, mod_index, target },
        RackOwner::Group { group } => GraphCommand::AddGroupModTarget { group, mod_index, target },
    }
}

/// The commands that set modulator number `index` up.
pub open spec fn modulator_commands(
    owner: RackOwner,
    index: int,
    m: ModConfigModel,
    targets: Seq<ResolvedModel>,
) -> Seq<GraphCommand> {
    seq![insert_command(owner, index as usize, config_source(m))] + Seq::new(
        targets.len(),
        |k: int| target_command(owner, index as usize, graph_mod_target(targets[k])),
    )
}

/// What is shown of a modulator.
pub open spec fn modulator_shown(m: ModConfigModel, targets: Seq<ResolvedModel>) -> LoadedModel {
    LoadedModel {
        source: config_shown(m),
        targets: Seq::new(targets.len(), |k: int| shown_target(targets[k])),
    }
}

/// Append modulator number `rack.modulators.len()` with its targets.
fn push_modulator(
    rack: &mut LoadedRack,
    owner: RackOwner,
    mod_config: &ModulatorConfig,
    targets: &Vec<ResolvedTarget>,
)
    ensures
        final(rack).commands@ == old(rack).commands@ + modulator_commands(
            owner,
            old(rack).modulators.len() as int,
            mod_config@,
            resolved_list(targets@),
        ),
        loaded_list(final(rack).modulators@) == loaded_list(old(rack).modulators@).push(
            modulator_shown(mod_config@, resolved_list(targets@)),
        ),
{
    let ghost before = rack.commands@;
    let ghost shown = rack.modulators@;
    let ghost rs = resolved_list(targets@);
    let index: usize = rack.modulators.len();
    let (source, loaded_source) = build_mod_source(mod_config);
    match owner {
        RackOwner::Lane { inst } => {
            rack.commands.push(GraphCommand::InsertModulator { inst, index, source });
        },
        RackOwner::Group { group } => {
            rack.commands.push(GraphCommand::InsertGroupModulator { group, index, source });
        },
    }
    let mut list: Vec<LoadedModTarget> = Vec::new();
    let mut k: usize = 0;
    assert(rack.commands@ =~= before + seq![insert_command(owner, index, source)] + Seq::new(
        0,
        |k: int| target_command(owner, index, graph_mod_target(rs[k])),
    ));
    while k < targets.len()
        invariant
            k <= targets.len(),
            rs == resolved_list(targets@),
            rack.modulators@ == shown,
            rack.commands@ == before + seq![insert_command(owner, index, source)] + Seq::new(
                k as nat,
                |k: int| target_command(owner, index, graph_mod_target(rs[k])),
            ),
            loaded_targets(list@) == Seq::new(k as nat, |k: int| shown_target(rs[k])),
        decreases targets.len() - k,
    {
        let t: &ResolvedTarget = &targets[k];
        assert(rs[k as int] == targets@[k as int]@);
        let ghost done = rack.commands@;
        let ghost listed = list@;
        let target = ModTarget {
            kind: t.kind,
            depth: t.depth,
            base_value: t.base,
            param_min: t.min,
            param_max: t.max,
        };
        match owner {
            RackOwner::Lane { inst } => {
                rack.commands.push(GraphCommand::AddModTarget { inst, mod_index: index, target });
            },
            RackOwner::Group { group } => {
                rack.commands.push(
                    GraphCommand::AddGroupModTarget { group, mod_index: index, target },
                );
            },
        }
        list.push(
            LoadedModTarget {
                slot: t.slot,
                param_name: t.label.clone(),
                kind: t.kind,
                depth: t.depth,
                param_min: t.min,
                param_max: t.max,
            },
        );
        assert(loaded_targets(list@) =~= loaded_targets(listed).push(shown_target(rs[k as int])));
        assert(loaded_targets(list@) =~= Seq::new((k + 1) as nat, |k: int| shown_target(rs[k])));
        assert(rack.commands@ =~= before + seq![insert_command(owner, index, source)] + Seq::new(
            (k + 1) as nat,
            |k: int| target_command(owner, index, graph_mod_target(rs[k])),
        ));
        k += 1;
    }
    assert(rack.commands@ =~= before + modulator_commands(owner, index as int, mod_config@, rs));
    rack.modulators.push(LoadedModulator { source: loaded_source, targets: list });
    assert(loaded_list(rack.modulators@) =~= loaded_list(shown).push(
        modulator_shown(mod_config@, rs),
    ));
}

/// One modulator of a lane, with the slot that it belongs to and the position
/// from which its sibling indices count.
pub struct LaneEntry {
    pub config: ModConfigModel,
    pub own_slot: int,
    pub first: int,
}

/// The modulators configured on one plugin.
pub open spec fn plugin_entries(
    mods: Seq<ModConfigModel>,
    own_slot: int,
    first: int,
) -> Seq<LaneEntry> {
    Seq::new(mods.len(), |i: int| LaneEntry { config: mods[i], own_slot, first })
}

/// The modulators of a lane: those of the instrument, then those of each of
/// the first `n` effects. An effect's sibling indices count from where its own
/// modulators start.
pub open spec fn lane_entries(c: InstrumentSlotConfig, n: nat) -> Seq<LaneEntry>
    decreases n,
{
    if n == 0 {
        match c.instrument {
            Some(p) => plugin_entries(mod_config_list(p.modulators@), 0, 0),
            None => Seq::empty(),
        }
    } else {
        let before = lane_entries(c, (n - 1) as nat);
        before + plugin_entries(
            mod_config_list(c.effects@[n - 1].modulators@),
            n as int,
            before.len() as int,
        )
    }
}

/// The resolved targets of a lane's modulator.
pub open spec fn entry_targets(e: LaneEntry, chain: Seq<Seq<ParamModel>>) -> Seq<ResolvedModel> {
    targets_resolved(
        e.config.targets,
        |t: TargetModel| lane_target(t, chain, e.own_slot as usize, e.first),
        e.config.targets.len(),
    )
}

/// The commands that set the first `n` modulators of a lane up.
pub open spec fn lane_rack_commands(
    inst: usize,
    entries: Seq<LaneEntry>,
    chain: Seq<Seq<ParamModel>>,
    n: nat,
) -> Seq<GraphCommand>
    decreases n,
{
    if n == 0 {
        Seq::empty()
    } else {
        lane_rack_commands(inst, entries, chain, (n - 1) as nat) + modulator_commands(
            RackOwner::Lane { inst },
            n - 1,
            entries[n - 1].config,
            entry_targets(entries[n - 1], chain),
        )
    }
}

/// What is shown of the first `n` modulators of a lane.
pub open spec fn lane_rack_shown(
    entries: Seq<LaneEntry>,
    chain: Seq<Seq<ParamModel>>,
    n: nat,
) -> Seq<LoadedModel> {
    Seq::new(
        n,
        |i: int| modulator_shown(entries[i].config, entry_targets(entries[i], chain)),
    )
}

/// The sibling indices of a modulator stay in `usize` range.
pub open spec fn entry_fits(e: LaneEntry) -> bool {
    forall|k: int|
        0 <= k < e.config.targets.len() && (#[trigger] e.config.targets[k]).param is None
            && sibling_named(e.config.targets[k]) is Some ==> (sibling_named(
            e.config.targets[k],
        )->0).0 + e.first <= usize::MAX
}

/// The sibling indices of a lane's modulators stay in `usize` range.
pub open spec fn lane_fits(c: InstrumentSlotConfig) -> bool {
    let entries = lane_entries(c, c.effects@.len());
    forall|i: int| 0 <= i < entries.len() ==> entry_fits(#[trigger] entries[i])
}

fn resolve_entry(
    mod_config: &ModulatorConfig,
    chain: &Vec<Vec<ParameterInfo>>,
    own_slot: usize,
    first: usize,
) -> (targets: Vec<ResolvedTarget>)
    requires
        entry_fits(
            LaneEntry { config: mod_config@, own_slot: own_slot as int, first: first as int },
        ),
    ensures
        resolved_list(targets@) == entry_targets(
            LaneEntry { config: mod_config@, own_slot: own_slot as int, first: first as int },
            chain_list(chain@),
        ),
{
    let ghost e = LaneEntry {
        config: mod_config@,
        own_slot: own_slot as int,
        first: first as int,
    };
    let ghost resolve = |t: TargetModel|
        lane_target(t, chain_list(chain@), e.own_slot as usize, e.first);
    let mut targets: Vec<ResolvedTarget> = Vec::new();
    let mut k: usize = 0;
    assert(resolved_list(targets@) =~= Seq::empty());
    while k < mod_config.targets.len()
        invariant
            k <= mod_config.targets.len(),
            e == (LaneEntry {
                config: mod_config@,
                own_slot: own_slot as int,
                first: first as int,
            }),
            entry_fits(e),
            resolve == (|t: TargetModel|
                lane_target(t, chain_list(chain@), e.own_slot as usize, e.first)),
            resolved_list(targets@) == targets_resolved(e.config.targets, resolve, k as nat),
        decreases mod_config.targets.len() - k,
    {
        let ghost done = targets@;
        assert(e.config.targets[k as int] == mod_config.targets@[k as int]@);
        if let Some(t) = resolve_lane_target(&mod_config.targets[k], chain, own_slot, first) {
            targets.push(t);
            assert(resolved_list(targets@) =~= resolved_list(done).push(t@));
        }
        k += 1;
    }
    targets
}

/// Append the modulators configured on one plugin of a lane.
fn load_plugin_mods(
    rack: &mut LoadedRack,
    mods: &Vec<ModulatorConfig>,
    chain: &Vec<Vec<ParameterInfo>>,
    inst: usize,
    own_slot: usize,
    Ghost(entries): Ghost<Seq<LaneEntry>>,
)
    requires
        ({
            let done = old(rack).modulators.len() as nat;
            &&& entries == entries.take(done as int) + plugin_entries(
                mod_config_list(mods@),
                own_slot as int,
                done as int,
            )
            &&& done <= entries.len()
            &&& own_slot == 0 ==> done == 0
            &&& forall|i: int| 0 <= i < entries.len() ==> entry_fits(#[trigger] entries[i])
            &&& old(rack).commands@ == lane_rack_commands(
                inst,
                entries,
                chain_list(chain@),
                done,
            )
            &&& loaded_list(old(rack).modulators@) == lane_rack_shown(
                entries,
                chain_list(chain@),
                done,
            )
        }),
    ensures
        final(rack).commands@ == lane_rack_commands(
            inst,
            entries,
            chain_list(chain@),
            entries.len(),
        ),
        loaded_list(final(rack).modulators@) == lane_rack_shown(
            entries,
            chain_list(chain@),
            entries.len(),
        ),
{
    let ghost params = chain_list(chain@);
    let first: usize = rack.modulators.len();
    let mut i: usize = 0;
    while i < mods.len()
        invariant
            i <= mods.len(),
            params == chain_list(chain@),
            entries.len() == first + mods.len(),
            entries == entries.take(first as int) + plugin_entries(
                mod_config_list(mods@),
                own_slot as int,
                first as int,
            ),
            forall|k: int| 0 <= k < entries.len() ==> entry_fits(#[trigger] entries[k]),
            rack.modulators.len() == first + i,
            rack.commands@ == lane_rack_commands(inst, entries, params, (first + i) as nat),
            loaded_list(rack.modulators@) == lane_rack_shown(entries, params, (first + i) as nat),
        decreases mods.len() - i,
    {
        let ghost e = entries[first + i];
        assert(mod_config_list(mods@)[i as int] == mods@[i as int]@);
        assert(e == plugin_entries(mod_config_list(mods@), own_slot as int, first as int)[i as int]);
        assert(entry_fits(e));
        let targets = resolve_entry(&mods[i], chain, own_slot, first);
        let ghost shown = loaded_list(rack.modulators@);
        push_modulator(rack, RackOwner::Lane { inst }, &mods[i], &targets);
        assert(loaded_list(rack.modulators@) =~= lane_rack_shown(
            entries,
            params,
            (first + i + 1) as nat,
        ));
        assert(loaded_list(rack.modulators@).len() == rack.modulators@.len());
        i += 1;
    }
}

proof fn earlier_entries_decide(
    inst: usize,
    a: Seq<LaneEntry>,
    b: Seq<LaneEntry>,
    chain: Seq<Seq<ParamModel>>,
    n: nat,
)
    requires
        n <= a.len(),
        n <= b.len(),
        forall|i: int| 0 <= i < n ==> a[i] == b[i],
    ensures
        lane_rack_commands(inst, a, chain, n) == lane_rack_commands(inst, b, chain, n),
        lane_rack_shown(a, chain, n) == lane_rack_shown(b, chain, n),
    decreases n,
{
    if n > 0 {
        earlier_entries_decide(inst, a, b, chain, (n - 1) as nat);
    }
    assert(lane_rack_shown(a, chain, n) =~= lane_rack_shown(b, chain, n));
}

proof fn entries_grow(c: InstrumentSlotConfig, n: nat, m: nat)
    requires
        n <= m,
    ensures
        lane_entries(c, n).len() <= lane_entries(c, m).len(),
        forall|i: int|
            0 <= i < lane_entries(c, n).len() ==> lane_entries(c, n)[i] == lane_entries(c, m)[i],
    decreases m - n,
{
    if n < m {
        entries_grow(c, n, (m - 1) as nat);
    }
}

/// Build a lane's modulators. Targets address plugins by chain slot, and
/// `chain_params[slot]` holds that plugin's parameters for looking names up.
///
/// Modulators come from the instrument and, in older sessions, from each
/// effect; those drive their own effect.
pub fn load_lane_modulators(
    inst_config: &InstrumentSlotConfig,
    chain_params: &Vec<Vec<ParameterInfo>>,
    inst_idx: usize,
) -> (rack: LoadedRack)
    requires
        lane_fits(*inst_config),
    ensures
        ({
            let entries = lane_entries(*inst_config, inst_config.effects@.len());
            let chain = chain_list(chain_params@);
            &&& rack.commands@ == lane_rack_commands(inst_idx, entries, chain, entries.len())
            &&& loaded_list(rack.modulators@) == lane_rack_shown(entries, chain, entries.len())
        }),
{
    let ghost c = *inst_config;
    let ghost chain = chain_list(chain_params@);
    let ghost all = lane_entries(c, c.effects@.len());
    let mut rack = LoadedRack { commands: Vec::new(), modulators: Vec::new() };
    let ghost start = lane_entries(c, 0);
    proof {
        entries_grow(c, 0, c.effects@.len());
        assert(loaded_list(rack.modulators@) =~= lane_rack_shown(start, chain, 0));
        assert forall|i: int| 0 <= i < start.len() implies entry_fits(#[trigger] start[i]) by {
            assert(entry_fits(all[i]));
        }
    }
    if let Some(inst) = &inst_config.instrument {
        assert(start =~= start.take(0) + plugin_entries(
            mod_config_list(inst.modulators@),
            0,
            0,
        ));
        load_plugin_mods(
            &mut rack,
            &inst.modulators,
            chain_params,
            inst_idx,
            0,
            Ghost(start),
        );
    }
    let mut i: usize = 0;
    while i < inst_config.effects.len()
        invariant
            i <= inst_config.effects.len(),
            c == *inst_config,
            chain == chain_list(chain_params@),
            all == lane_entries(c, c.effects@.len()),
            forall|k: int| 0 <= k < all.len() ==> entry_fits(#[trigger] all[k]),
            ({
                let entries = lane_entries(c, i as nat);
                &&& rack.commands@ == lane_rack_commands(inst_idx, entries, chain, entries.len())
                &&& loaded_list(rack.modulators@) == lane_rack_shown(
                    entries,
                    chain,
                    entries.len(),
                )
            }),
        decreases inst_config.effects.len() - i,
    {
        let ghost entries = lane_entries(c, i as nat);
        let ghost next = lane_entries(c, (i + 1) as nat);
        assert(loaded_list(rack.modulators@).len() == rack.modulators@.len());
        proof {
            entries_grow(c, i as nat, (i + 1) as nat);
            entries_grow(c, (i + 1) as nat, c.effects@.len());
            earlier_entries_decide(inst_idx, entries, next, chain, entries.len());
            assert(next.take(entries.len() as int) =~= entries);
            assert forall|k: int| 0 <= k < next.len() implies entry_fits(#[trigger] next[k]) by {
                assert(entry_fits(all[k]));
            }
        }
        load_plugin_mods(
            &mut rack,
            &inst_config.effects[i].modulators,
            chain_params,
            inst_idx,
            i + 1,
            Ghost(next),
        );
        i += 1;
    }
    rack
}

fn target_index_fits(t: &ModTargetConfig, first: usize) -> (ok: bool)
    ensures
        ok == (t@.param is None && sibling_named(t@) is Some ==> (sibling_named(t@)->0).0 + first
            <= usize::MAX),
{
    if t.param.is_some() {
        return true;
    }
    match named_sibling(t) {
        Some((index, _)) => index <= usize::MAX - first,
        None => true,
    }
}

fn mods_fit(mods: &Vec<ModulatorConfig>, own_slot: usize, first: usize) -> (ok: bool)
    ensures
        ok == forall|i: int|
            0 <= i < mods@.len() ==> entry_fits(
                #[trigger] plugin_entries(
                    mod_config_list(mods@),
                    own_slot as int,
                    first as int,
                )[i],
            ),
{
    let ghost entries = plugin_entries(mod_config_list(mods@), own_slot as int, first as int);
    let mut i: usize = 0;
    while i < mods.len()
        invariant
            i <= mods.len(),
            entries == plugin_entries(mod_config_list(mods@), own_slot as int, first as int),
            forall|k: int| 0 <= k < i ==> entry_fits(#[trigger] entries[k]),
        decreases mods.len() - i,
    {
        let ghost e = entries[i as int];
        assert(e.config == mods@[i as int]@);
        let mut k: usize = 0;
        while k < mods[i].targets.len()
            invariant
                i < mods.len(),
                entries == plugin_entries(mod_config_list(mods@), own_slot as int, first as int),
                e == entries[i as int],
                e.config == mods@[i as int]@,
                k <= mods@[i as int].targets.len(),
                forall|j: int|
                    0 <= j < k && (#[trigger] e.config.targets[j]).param is None && sibling_named(
                        e.config.targets[j],
                    ) is Some ==> (sibling_named(e.config.targets[j])->0).0 + e.first
                        <= usize::MAX,
            decreases mods@[i as int].targets.len() - k,
        {
            assert(e.config.targets[k as int] == mods@[i as int].targets@[k as int]@);
            if !target_index_fits(&mods[i].targets[k], first) {
                assert(!entry_fits(entries[i as int]));
                return false;
            }
            k += 1;
        }
        i += 1;
    }
    true
}

/// Whether `load_lane_modulators` can take a lane: no sibling index leaves the
/// `usize` range.
pub fn lane_modulators_fit(inst_config: &InstrumentSlotConfig) -> (ok: bool)
    ensures
        ok == (lane_fits(*inst_config) && lane_entries(
            *inst_config,
            inst_config.effects@.len(),
        ).len() <= usize::MAX),
{
    let ghost c = *inst_config;
    let ghost n = c.effects@.len();
    let ghost all = lane_entries(c, n);
    let mut first: usize = 0;
    proof {
        entries_grow(c, 0, n);
    }
    if let Some(inst) = &inst_config.instrument {
        let ghost own = plugin_entries(mod_config_list(inst.modulators@), 0, 0);
        if !mods_fit(&inst.modulators, 0, 0) {
            proof {
                let k = choose|k: int| 0 <= k < own.len() && !entry_fits(#[trigger] own[k]);
                assert(all[k] == own[k]);
            }
            return false;
        }
        first = inst.modulators.len();
    }
    let mut i: usize = 0;
    while i < inst_config.effects.len()
        invariant
            i <= inst_config.effects.len(),
            c == *inst_config,
            n == c.effects@.len(),
            all == lane_entries(c, n),
            first == lane_entries(c, i as nat).len(),
            forall|k: int|
                0 <= k < first ==> entry_fits(#[trigger] lane_entries(c, i as nat)[k]),
        decreases inst_config.effects.len() - i,
    {
        let ghost entries = lane_entries(c, i as nat);
        let ghost next = lane_entries(c, (i + 1) as nat);
        let ghost own = plugin_entries(
            mod_config_list(c.effects@[i as int].modulators@),
            i + 1,
            first as int,
        );
        proof {
            entries_grow(c, (i + 1) as nat, n);
            assert(next =~= entries + own);
        }
        let count: usize = inst_config.effects[i].modulators.len();
        if !mods_fit(&inst_config.effects[i].modulators, i + 1, first) {
            proof {
                let k = choose|k: int| 0 <= k < own.len() && !entry_fits(#[trigger] own[k]);
                assert(all[first + k] == next[first + k]);
                assert(next[first + k] == own[k]);
            }
            return false;
        }
        if count > usize::MAX - first {
            return false;
        }
        assert forall|k: int| 0 <= k < next.len() implies entry_fits(#[trigger] next[k]) by {
            if k < first {
                assert(entry_fits(entries[k]));
            } else {
                assert(next[k] == own[k - first]);
            }
        }
        first = first + count;
        i += 1;
    }
    true
}

// ---------------------------------------------------------------------------
// Group racks
// ---------------------------------------------------------------------------

/// The resolved targets of a group's modulator.
pub open spec fn group_mod_targets(
    m: ModConfigModel,
    member_chains: Seq<Seq<Seq<ParamModel>>>,
    member_mods: Seq<Seq<LoadedModel>>,
    bus_params: Seq<Seq<ParamModel>>,
) -> Seq<ResolvedModel> {
    targets_resolved(
        m.targets,
        |t: TargetModel| group_target(t, member_chains, member_mods, bus_params),
        m.targets.len(),
    )
}

/// The commands that set the first `n` modulators of a group up.
pub open spec fn group_rack_commands(
    group: usize,
    mods: Seq<ModConfigModel>,
    member_chains: Seq<Seq<Seq<ParamModel>>>,
    member_mods: Seq<Seq<LoadedModel>>,
    bus_params: Seq<Seq<ParamModel>>,
    n: nat,
) -> Seq<GraphCommand>
    decreases n,
{
    if n == 0 {
        Seq::empty()
    } else {
        group_rack_commands(
            group,
            mods,
            member_chains,
            member_mods,
            bus_params,
            (n - 1) as nat,
        ) + modulator_commands(
            RackOwner::Group { group },
            n - 1,
            mods[n - 1],
            group_mod_targets(mods[n - 1], member_chains, member_mods, bus_params),
        )
    }
}

/// What is shown of the first `n` modulators of a group.
pub open spec fn group_rack_shown(
    mods: Seq<ModConfigModel>,
    member_chains: Seq<Seq<Seq<ParamModel>>>,
    member_mods: Seq<Seq<LoadedModel>>,
    bus_params: Seq<Seq<ParamModel>>,
    n: nat,
) -> Seq<LoadedModel> {
    Seq::new(
        n,
        |i: int|
            modulator_shown(
                mods[i],
                group_mod_targets(mods[i], member_chains, member_mods, bus_params),
            ),
    )
}

/// Build a group's modulators. `member_chains[ordinal][slot]` holds each
/// member's plugin parameters, `member_mods[ordinal]` each member's modulators
/// and `bus_params[i]` those of bus effect `i`.
pub fn load_group_modulators(
    modulators: &Vec<ModulatorConfig>,
    g_idx: usize,
    member_chains: &Vec<&Vec<Vec<ParameterInfo>>>,
    member_mods: &Vec<&[LoadedModulator]>,
    bus_params: &Vec<Vec<ParameterInfo>>,
) -> (rack: LoadedRack)
    ensures
        ({
            let mods = mod_config_list(modulators@);
            let chains = member_chain_list(member_chains@);
            let shown = member_mod_list(member_mods@);
            let bus = chain_list(bus_params@);
            &&& rack.commands@ == group_rack_commands(
                g_idx,
                mods,
                chains,
                shown,
                bus,
                mods.len(),
            )
            &&& loaded_list(rack.modulators@) == group_rack_shown(
                mods,
                chains,
                shown,
                bus,
                mods.len(),
            )
        }),
{
    let ghost mods = mod_config_list(modulators@);
    let ghost chains = member_chain_list(member_chains@);
    let ghost shown = member_mod_list(member_mods@);
    let ghost bus = chain_list(bus_params@);
    let ghost resolve = |t: TargetModel| group_target(t, chains, shown, bus);
    let mut rack = LoadedRack { commands: Vec::new(), modulators: Vec::new() };
    let mut i: usize = 0;
    assert(loaded_list(rack.modulators@) =~= group_rack_shown(mods, chains, shown, bus, 0));
    while i < modulators.len()
        invariant
            i <= modulators.len(),
            mods == mod_config_list(modulators@),
            chains == member_chain_list(member_chains@),
            shown == member_mod_list(member_mods@),
            bus == chain_list(bus_params@),
            resolve == (|t: TargetModel| group_target(t, chains, shown, bus)),
            rack.modulators.len() == i,
            rack.commands@ == group_rack_commands(g_idx, mods, chains, shown, bus, i as nat),
            loaded_list(rack.modulators@) == group_rack_shown(mods, chains, shown, bus, i as nat),
        decreases modulators.len() - i,
    {
        let mod_config: &ModulatorConfig = &modulators[i];
        let ghost m = mods[i as int];
        assert(m == mod_config@);
        let mut targets: Vec<ResolvedTarget> = Vec::new();
        let mut k: usize = 0;
        assert(resolved_list(targets@) =~= Seq::empty());
        while k < mod_config.targets.len()
            invariant
                k <= mod_config.targets.len(),
                m == mod_config@,
                chains == member_chain_list(member_chains@),
                shown == member_mod_list(member_mods@),
                bus == chain_list(bus_params@),
                resolve == (|t: TargetModel| group_target(t, chains, shown, bus)),
                resolved_list(targets@) == targets_resolved(m.targets, resolve, k as nat),
            decreases mod_config.targets.len() - k,
        {
            let ghost done = targets@;
            assert(m.targets[k as int] == mod_config.targets@[k as int]@);
            if let Some(t) = resolve_group_target(
                &mod_config.targets[k],
                member_chains,
                member_mods,
                bus_params,
            ) {
                targets.push(t);
                assert(resolved_list(targets@) =~= resolved_list(done).push(t@));
            }
            k += 1;
        }
        let ghost listed = rack.modulators@;
        push_modulator(&mut rack, RackOwner::Group { group: g_idx }, mod_config, &targets);
        assert(loaded_list(rack.modulators@) =~= group_rack_shown(
            mods,
            chains,
            shown,
            bus,
            (i + 1) as nat,
        ));
        assert(loaded_list(rack.modulators@).len() == rack.modulators@.len());
        i += 1;
    }
    rack
}

} // verus!
