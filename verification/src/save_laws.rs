//! What a saved session is when it is loaded again.

use vstd::prelude::*;

use crate::config::{
    text_view, EffectConfig, GroupConfig, InstrumentSlotConfig, ModConfigModel, ModulatorConfig,
    ParamSetting, PianoConfig, RemapConfig, SessionConfig,
};
use crate::notes::ranges_read_back;
use crate::save::{
    effect_out, effects_out, group_table, modulator_out, modulators_out, plain_event, remap_list,
    remap_names, remaps_sorted, saved_patterns_read_back, saved_targets_read_back, session_saved,
    setting_list, setting_names, settings_sorted, slot_table, sorted_settings_in_order,
    target_kept, target_read, EffectOutModel, GroupOutModel, ModulatorOutModel, RemapModel,
    SaveEffect, SaveGroup, SaveInstrumentSlot, SaveModSource, SaveModulator, SessionOut,
    SettingModel, SlotOutModel,
};
use crate::scalar::{F32Bits, F64Bits, ONE, WIDE_ONE};
use crate::session::{
    first_error, group_loaded, session_loaded, slot_error, slot_loaded, GroupRaw,
    InstrumentSlotRaw, SessionRaw, WIDE_TWO,
};
use crate::text::{
    key_place, keys_sorted, placing_keeps_keys_sorted, text_before, text_order_is_total,
};

verus! {

// ---------------------------------------------------------------------------
// Reading what was written
// ---------------------------------------------------------------------------

/// Two lists have the same entries, in whatever order, and none of the second
/// occurs twice.
pub open spec fn same_entries<T>(a: Seq<T>, b: Seq<T>) -> bool {
    &&& a.len() == b.len()
    &&& b.no_duplicates()
    &&& forall|i: int| 0 <= i < a.len() ==> b.contains(#[trigger] a[i])
    &&& forall|i: int| 0 <= i < b.len() ==> a.contains(#[trigger] b[i])
}

/// What writing a number in decimal and reading it again makes of it: of the
/// values of parameter settings, and of detunes, which are brought to single
/// precision before they are written.
pub struct Decimals {
    pub setting: spec_fn(F32Bits) -> F32Bits,
    pub detune: spec_fn(F64Bits) -> F64Bits,
}

/// Remapped notes with the notes that they become and their detunes.
pub open spec fn remap_entries(remap: Seq<RemapModel>) -> Seq<(Seq<char>, Seq<char>, F64Bits)> {
    Seq::new(remap.len(), |i: int| (remap[i].source, remap[i].note, remap[i].detune))
}

/// Remapped notes as they read.
pub open spec fn remap_entries_read(remap: Seq<RemapModel>, d: Decimals) -> Seq<
    (Seq<char>, Seq<char>, F64Bits),
> {
    Seq::new(remap.len(), |i: int| (remap[i].source, remap[i].note, (d.detune)(remap[i].detune)))
}

/// Settings with their values.
pub open spec fn setting_entries(settings: Seq<SettingModel>) -> Seq<(Seq<char>, F32Bits)> {
    Seq::new(settings.len(), |i: int| (settings[i].name, settings[i].value))
}

/// Settings as they read.
pub open spec fn setting_entries_read(settings: Seq<SettingModel>, d: Decimals) -> Seq<
    (Seq<char>, F32Bits),
> {
    Seq::new(settings.len(), |i: int| (settings[i].name, (d.setting)(settings[i].value)))
}

/// The names of parameter settings.
pub open spec fn param_names(params: Seq<ParamSetting>) -> Seq<Seq<char>> {
    setting_names(setting_list(params))
}

/// A gain as it reads. One that is left out because it is next to the usual one
/// reads as the usual one; any other keeps its bits.
pub open spec fn gain_read(v: F32Bits) -> F32Bits {
    if v.unity() {
        F32Bits { bits: ONE }
    } else {
        v
    }
}

/// A pan as it reads: next to the centre it is left out and reads as the centre.
pub open spec fn pan_read(v: F32Bits) -> F32Bits {
    if v.negligible() {
        F32Bits { bits: 0 }
    } else {
        v
    }
}

/// A gain as it reads in double precision.
pub open spec fn wide_gain_read(v: F32Bits) -> F64Bits {
    if v.unity() {
        F64Bits { bits: WIDE_ONE }
    } else {
        v.widened()
    }
}

/// A modulator as its table reads: what is left out is an LFO's type and the
/// sine, and a setting that is written stays.
pub open spec fn modulator_reads(out: ModulatorOutModel, m: ModConfigModel) -> bool {
    &&& m.mod_type == out.mod_type
    &&& m.waveform == (match out.waveform {
        Some(w) => w,
        None => "sine"@,
    })
    &&& out.rate is Some ==> m.rate == out.rate->0
    &&& out.attack is Some ==> m.attack == out.attack->0
    &&& out.decay is Some ==> m.decay == out.decay->0
    &&& out.sustain is Some ==> m.sustain == out.sustain->0
    &&& out.release is Some ==> m.release == out.release->0
    &&& m.midi_cc == out.midi_cc
    &&& m.midi_pitch_bend == out.midi_pitch_bend
    &&& m.targets == Seq::new(out.targets.len(), |i: int| target_read(out.targets[i]))
}

/// Modulator tables as they read.
pub open spec fn modulators_read(
    out: Seq<ModulatorOutModel>,
    mods: Seq<ModulatorConfig>,
) -> bool {
    &&& mods.len() == out.len()
    &&& forall|i: int| 0 <= i < out.len() ==> modulator_reads(#[trigger] out[i], mods[i]@)
}

/// Effect tables as they read. The order of settings is open.
pub open spec fn effects_read(
    out: Seq<EffectOutModel>,
    effects: Seq<EffectConfig>,
    d: Decimals,
) -> bool {
    &&& effects.len() == out.len()
    &&& forall|i: int|
        0 <= i < out.len() ==> {
            let fx = #[trigger] out[i];
            &&& effects[i].plugin@ == fx.plugin
            &&& text_view(effects[i].preset) == fx.preset
            &&& fx.mix.is_number() ==> effects[i].mix == wide_gain_read(fx.mix)
            &&& same_entries(
                setting_entries_read(fx.params, d),
                setting_entries(setting_list(effects[i].params@)),
            )
            &&& effects[i].modulators@.len() == 0
        }
}

/// An instrument table as it reads. The order of remappings and settings is open.
/// A volume or bend range that is left out reads as the usual one.
pub open spec fn slot_reads(out: SlotOutModel, raw: InstrumentSlotRaw, d: Decimals) -> bool {
    &&& text_view(raw.plugin) == out.plugin
    &&& text_view(raw.preset) == out.preset
    &&& match out.volume {
        Some(v) => v.is_number() ==> raw.volume == wide_gain_read(v),
        None => raw.volume == (F64Bits { bits: WIDE_ONE }),
    }
    &&& match out.pitch_bend_range {
        Some(r) => r.is_number() ==> raw.pitch_bend_range == r,
        None => raw.pitch_bend_range == (F64Bits { bits: WIDE_TWO }),
    }
    &&& text_view(raw.range) == out.range
    &&& raw.transpose == out.transpose
    &&& raw.group == out.group
    &&& modulators_read(out.modulators, raw.modulators@)
    &&& same_entries(
        remap_entries_read(out.remap, d),
        remap_entries(remap_list(raw.remap@)),
    )
    &&& same_entries(
        setting_entries_read(out.params, d),
        setting_entries(setting_list(raw.params@)),
    )
    &&& effects_read(out.effects, raw.effects@, d)
    &&& match (out.pattern, raw.pattern) {
        (Some(o), Some(r)) => r@ == o,
        (None, None) => true,
        _ => false,
    }
}

/// A group table as it reads.
pub open spec fn group_reads(out: GroupOutModel, raw: GroupRaw, d: Decimals) -> bool {
    &&& text_view(raw.name) == out.name
    &&& out.volume.is_number() ==> raw.volume == gain_read(out.volume)
    &&& out.pan.is_number() ==> raw.pan == pan_read(out.pan)
    &&& effects_read(out.effects, raw.effects@, d)
    &&& modulators_read(out.modulators, raw.modulators@)
}

/// A session's tables as they read.
pub open spec fn session_reads(out: SessionOut, raw: SessionRaw, d: Decimals) -> bool {
    &&& raw.instruments@.len() == out.instruments@.len()
    &&& forall|i: int|
        0 <= i < out.instruments@.len() ==> slot_reads(
            (#[trigger] out.instruments@[i])@,
            raw.instruments@[i],
            d,
        )
    &&& raw.groups@.len() == out.groups@.len()
    &&& forall|i: int|
        0 <= i < out.groups@.len() ==> group_reads(
            (#[trigger] out.groups@[i])@,
            raw.groups@[i],
            d,
        )
    &&& match (out.piano, raw.piano) {
        (Some(o), Some(p)) => text_view(p.scale) == text_view(o.scale),
        (None, None) => true,
        _ => false,
    }
}

// ---------------------------------------------------------------------------
// What comes back
// ---------------------------------------------------------------------------

/// Every setting that was saved is there, once, and no other, and has the value
/// that its last setting gives it in decimal.
pub open spec fn settings_kept(
    saved: Seq<ParamSetting>,
    loaded: Seq<ParamSetting>,
    d: Decimals,
) -> bool {
    &&& param_names(loaded).no_duplicates()
    &&& forall|i: int|
        0 <= i < saved.len() ==> param_names(loaded).contains((#[trigger] saved[i]).name@)
    &&& forall|i: int|
        0 <= i < loaded.len() ==> (last_setting(
            setting_list(saved),
            (#[trigger] loaded[i]).name@,
            saved.len(),
        ) matches Some(s) && loaded[i].value == (d.setting)(s.value))
}

/// Every note that was remapped is, once, and no other, and becomes the note that
/// its last remapping says, with its detune in decimal.
pub open spec fn remaps_kept(
    saved: Seq<RemapConfig>,
    loaded: Seq<RemapConfig>,
    d: Decimals,
) -> bool {
    &&& loaded.len() == remaps_sorted(remap_list(saved), saved.len()).len()
    &&& remap_names(remap_list(loaded)).no_duplicates()
    &&& forall|i: int|
        0 <= i < saved.len() ==> remap_names(remap_list(loaded)).contains(
            (#[trigger] saved[i]).source@,
        )
    &&& forall|i: int|
        0 <= i < loaded.len() ==> (last_remap(
            remap_list(saved),
            (#[trigger] loaded[i]).source@,
            saved.len(),
        ) matches Some(r) && r.note == loaded[i].target.note@ && loaded[i].target.detune == (
        d.detune)(r.detune))
}

/// A modulator has the source and targets that it was saved with.
pub open spec fn modulator_kept(saved: SaveModulator, m: ModConfigModel) -> bool {
    &&& match saved.source {
        SaveModSource::Lfo { waveform, rate } => m.mod_type == "lfo"@ && m.waveform == waveform@
            && m.rate == rate,
        SaveModSource::Envelope { attack, decay, sustain, release } => m.mod_type == "envelope"@
            && m.attack == attack && m.decay == decay && m.sustain == sustain && m.release
            == release,
        SaveModSource::MidiLearn { cc, pitch_bend } => m.mod_type == "midi"@ && m.midi_cc == cc
            && m.midi_pitch_bend == pitch_bend,
    }
    &&& m.targets.len() == saved.targets@.len()
    &&& forall|i: int|
        0 <= i < saved.targets@.len() ==> {
            let t = #[trigger] saved.targets@[i];
            target_kept(t.kind, t.label@, t.depth, t.slot, m.targets[i])
        }
}

/// Modulators are those that were saved, in order.
pub open spec fn modulators_kept(saved: Seq<SaveModulator>, mods: Seq<ModulatorConfig>) -> bool {
    &&& mods.len() == saved.len()
    &&& forall|i: int| 0 <= i < saved.len() ==> modulator_kept(saved[i], (#[trigger] mods[i])@)
}

/// Effects are those that were saved, in order.
pub open spec fn effects_kept(
    saved: Seq<SaveEffect>,
    effects: Seq<EffectConfig>,
    d: Decimals,
) -> bool {
    &&& effects.len() == saved.len()
    &&& forall|i: int|
        0 <= i < saved.len() ==> {
            let fx = #[trigger] effects[i];
            &&& fx.plugin@ == saved[i].plugin@
            &&& text_view(fx.preset) == text_view(saved[i].preset)
            &&& saved[i].mix.is_number() ==> fx.mix == wide_gain_read(saved[i].mix)
            &&& settings_kept(saved[i].params@, fx.params@, d)
            &&& fx.modulators@.len() == 0
        }
}

/// A slot has the range, transposition, group, plugin, volume, preset, settings,
/// bend range, remappings, modulators, effects and pattern that it was saved with.
pub open spec fn slot_kept(
    s: SaveInstrumentSlot,
    config: InstrumentSlotConfig,
    d: Decimals,
) -> bool {
    &&& config.range == s.range
    &&& config.transpose == s.transpose
    &&& config.group == s.group
    &&& match (s.instrument, config.instrument) {
        (Some(saved), Some(p)) => {
            &&& p.plugin@ == saved.plugin@
            &&& text_view(p.preset) == text_view(saved.preset)
            &&& saved.volume.is_number() ==> p.volume == wide_gain_read(saved.volume)
            &&& saved.pitch_bend_range.is_number() ==> p.pitch_bend_range
                == saved.pitch_bend_range
            &&& settings_kept(saved.params@, p.params@, d)
            &&& remaps_kept(saved.remap@, p.remap@, d)
            &&& modulators_kept(s.modulators@, p.modulators@)
        },
        (None, None) => true,
        _ => false,
    }
    &&& effects_kept(s.effects@, config.effects@, d)
    &&& match (s.pattern, config.pattern) {
        (Some(saved), Some(p)) => {
            &&& p@.bpm == saved.bpm
            &&& p@.length_beats == saved.length_beats
            &&& p@.looping == saved.looping
            &&& p@.base_note == saved.base_note
            &&& p@.events == saved.events@
            &&& p@.enabled == saved.enabled
            &&& p@.in_key == saved.in_key
        },
        (None, None) => true,
        _ => false,
    }
}

/// A group has the name, volume, pan, effects and modulators that it was saved
/// with. A pan beyond the sides is at the side.
pub open spec fn group_kept(g: SaveGroup, config: GroupConfig, d: Decimals) -> bool {
    &&& text_view(config.name) == text_view(g.name)
    &&& g.volume.is_number() ==> config.volume == gain_read(g.volume)
    &&& g.pan.is_number() ==> config.pan == pan_read(g.pan).clamped()
    &&& effects_kept(g.effects@, config.effects@, d)
    &&& modulators_kept(g.modulators@, config.modulators@)
}

/// A session has the instruments, groups and piano scale that it was saved with.
pub open spec fn session_kept(
    instruments: Seq<SaveInstrumentSlot>,
    groups: Seq<SaveGroup>,
    piano: Option<PianoConfig>,
    config: SessionConfig,
    d: Decimals,
) -> bool {
    &&& config.instruments@.len() == instruments.len()
    &&& forall|i: int|
        0 <= i < instruments.len() ==> slot_kept(
            instruments[i],
            #[trigger] config.instruments@[i],
            d,
        )
    &&& config.groups@.len() == groups.len()
    &&& forall|i: int|
        0 <= i < groups.len() ==> group_kept(groups[i], #[trigger] config.groups@[i], d)
    &&& match (piano, config.piano) {
        (Some(saved), Some(p)) => text_view(p.scale) == text_view(saved.scale),
        (None, None) => true,
        _ => false,
    }
}

proof fn read_settings_are_kept(
    saved: Seq<ParamSetting>,
    loaded: Seq<ParamSetting>,
    d: Decimals,
)
    requires
        same_entries(
            setting_entries_read(settings_sorted(setting_list(saved), saved.len()), d),
            setting_entries(setting_list(loaded)),
        ),
    ensures
        settings_kept(saved, loaded, d),
{
    let list = setting_list(saved);
    let sorted = settings_sorted(list, list.len());
    let written = setting_entries_read(sorted, d);
    let read = setting_entries(setting_list(loaded));
    let names = param_names(loaded);
    let keys = setting_names(sorted);
    assert forall|i: int| 0 <= i < saved.len() implies names.contains(
        (#[trigger] saved[i]).name@,
    ) by {
        let name = saved[i].name@;
        saved_settings_keep_values(list, list.len(), name);
        assert(list[i].name == name);
        setting_is_found(list, i, list.len());
        let found = last_setting(list, name, list.len())->0;
        let k = choose|k: int| 0 <= k < sorted.len() && sorted[k] == found;
        assert(read.contains(written[k]));
        let j = choose|j: int| 0 <= j < read.len() && read[j] == written[k];
        assert(names[j] == name);
    }
    assert forall|i: int| 0 <= i < loaded.len() implies (last_setting(
        list,
        (#[trigger] loaded[i]).name@,
        saved.len(),
    ) matches Some(s) && loaded[i].value == (d.setting)(s.value)) by {
        let name = loaded[i].name@;
        assert(written.contains(read[i]));
        let k = choose|k: int| 0 <= k < written.len() && written[k] == read[i];
        assert(sorted[k].name == name);
        saved_settings_keep_values(list, list.len(), name);
        let found = last_setting(list, name, list.len())->0;
        let m = choose|m: int| 0 <= m < sorted.len() && sorted[m] == found;
        assert(keys[k] == name && keys[m] == name);
        text_order_is_total(name, name);
        if k < m {
            assert(text_before(keys[k], keys[m]));
        } else if m < k {
            assert(text_before(keys[m], keys[k]));
        }
    }
    assert forall|i: int, j: int| 0 <= i < names.len() && 0 <= j < names.len() && i
        != j implies names[i] != names[j] by {
        if names[i] == names[j] {
            let a = last_setting(list, loaded[i].name@, saved.len())->0;
            assert(loaded[i].value == (d.setting)(a.value));
            assert(loaded[j].value == (d.setting)(a.value));
            assert(read[i] == read[j]);
        }
    }
}

proof fn setting_is_found(settings: Seq<SettingModel>, i: int, n: nat)
    requires
        0 <= i < n <= settings.len(),
    ensures
        last_setting(settings, settings[i].name, n) is Some,
    decreases n,
{
    if i < n - 1 {
        setting_is_found(settings, i, (n - 1) as nat);
    }
}

proof fn remap_is_found(remap: Seq<RemapModel>, i: int, n: nat)
    requires
        0 <= i < n <= remap.len(),
    ensures
        last_remap(remap, remap[i].source, n) is Some,
    decreases n,
{
    if i < n - 1 {
        remap_is_found(remap, i, (n - 1) as nat);
    }
}

proof fn read_remaps_are_kept(saved: Seq<RemapConfig>, loaded: Seq<RemapConfig>, d: Decimals)
    requires
        same_entries(
            remap_entries_read(remaps_sorted(remap_list(saved), saved.len()), d),
            remap_entries(remap_list(loaded)),
        ),
    ensures
        remaps_kept(saved, loaded, d),
{
    let list = remap_list(saved);
    let sorted = remaps_sorted(list, list.len());
    let written = remap_entries_read(sorted, d);
    let read = remap_entries(remap_list(loaded));
    let names = remap_names(remap_list(loaded));
    let keys = remap_names(sorted);
    assert forall|i: int| 0 <= i < saved.len() implies names.contains(
        (#[trigger] saved[i]).source@,
    ) by {
        let source = saved[i].source@;
        saved_remaps_keep_targets(list, list.len(), source);
        assert(list[i].source == source);
        remap_is_found(list, i, list.len());
        let found = last_remap(list, source, list.len())->0;
        let k = choose|k: int| 0 <= k < sorted.len() && sorted[k] == found;
        assert(read.contains(written[k]));
        let j = choose|j: int| 0 <= j < read.len() && read[j] == written[k];
        assert(names[j] == source);
    }
    assert forall|i: int| 0 <= i < loaded.len() implies (last_remap(
        list,
        (#[trigger] loaded[i]).source@,
        saved.len(),
    ) matches Some(r) && r.note == loaded[i].target.note@ && loaded[i].target.detune == (d.detune)(
        r.detune,
    )) by {
        let source = loaded[i].source@;
        assert(written.contains(read[i]));
        let k = choose|k: int| 0 <= k < written.len() && written[k] == read[i];
        assert(sorted[k].source == source);
        saved_remaps_keep_targets(list, list.len(), source);
        let found = last_remap(list, source, list.len())->0;
        let m = choose|m: int| 0 <= m < sorted.len() && sorted[m] == found;
        assert(keys[k] == source && keys[m] == source);
        text_order_is_total(source, source);
        if k < m {
            assert(text_before(keys[k], keys[m]));
        } else if m < k {
            assert(text_before(keys[m], keys[k]));
        }
    }
    assert forall|i: int, j: int| 0 <= i < names.len() && 0 <= j < names.len() && i
        != j implies names[i] != names[j] by {
        if names[i] == names[j] {
            let a = last_remap(list, loaded[i].source@, saved.len())->0;
            assert(a.note == loaded[i].target.note@);
            assert(a.note == loaded[j].target.note@);
            assert(loaded[i].target.detune == loaded[j].target.detune);
            assert(read[i] == read[j]);
        }
    }
}

proof fn read_modulators_are_kept(saved: Seq<SaveModulator>, mods: Seq<ModulatorConfig>)
    requires
        modulators_read(modulators_out(saved), mods),
    ensures
        modulators_kept(saved, mods),
{
    let out = modulators_out(saved);
    assert forall|i: int| 0 <= i < saved.len() implies modulator_kept(
        saved[i],
        (#[trigger] mods[i])@,
    ) by {
        assert(modulator_reads(out[i], mods[i]@));
        assert(out[i] == modulator_out(saved[i]));
        assert forall|k: int| 0 <= k < saved[i].targets@.len() implies ({
            let t = #[trigger] saved[i].targets@[k];
            target_kept(t.kind, t.label@, t.depth, t.slot, mods[i]@.targets[k])
        }) by {
            let t = saved[i].targets@[k];
            saved_targets_read_back(t.kind, t.label@, t.depth, t.slot);
        }
    }
}

proof fn read_effects_are_kept(saved: Seq<SaveEffect>, effects: Seq<EffectConfig>, d: Decimals)
    requires
        effects_read(effects_out(saved), effects, d),
    ensures
        effects_kept(saved, effects, d),
{
    let out = effects_out(saved);
    assert forall|i: int| 0 <= i < saved.len() implies ({
        let fx = #[trigger] effects[i];
        &&& fx.plugin@ == saved[i].plugin@
        &&& text_view(fx.preset) == text_view(saved[i].preset)
        &&& saved[i].mix.is_number() ==> fx.mix == wide_gain_read(saved[i].mix)
        &&& settings_kept(saved[i].params@, fx.params@, d)
        &&& fx.modulators@.len() == 0
    }) by {
        assert(out[i] == effect_out(saved[i]));
        read_settings_are_kept(saved[i].params@, effects[i].params@, d);
    }
}

/// A slot as the user interface makes it: a range that is one, and a pattern
/// of MIDI notes.
pub open spec fn saveable(s: SaveInstrumentSlot) -> bool {
    &&& s.range matches Some(r) ==> r.0 <= r.1 <= 127
    &&& s.pattern matches Some(p) ==> {
        &&& p.base_note is Some ==> p.base_note->0 <= 127
        &&& forall|i: int| 0 <= i < p.events@.len() ==> plain_event(#[trigger] p.events@[i])
    }
}

/// A saved slot loads again without an error.
pub proof fn saved_slots_load(
    s: SaveInstrumentSlot,
    raw: InstrumentSlotRaw,
    slot: int,
    d: Decimals,
)
    requires
        saveable(s),
        slot_reads(slot_table(s), raw, d),
    ensures
        slot_error(raw, slot) is None,
{
    if let Some(r) = s.range {
        ranges_read_back(r.0, r.1);
    }
    if let Some(p) = s.pattern {
        saved_patterns_read_back(p);
    }
}

/// A saved slot that is loaded again has the range, transposition, group,
/// plugin, volume, preset, settings, bend range, remappings, modulators, effects
/// and pattern that it was saved with.
pub proof fn saved_slots_come_back(
    s: SaveInstrumentSlot,
    raw: InstrumentSlotRaw,
    groups: nat,
    config: InstrumentSlotConfig,
    d: Decimals,
)
    requires
        saveable(s),
        slot_reads(slot_table(s), raw, d),
        slot_loaded(raw, groups, config),
        s.group matches Some(g) ==> g < groups,
    ensures
        slot_kept(s, config, d),
{
    if let Some(r) = s.range {
        ranges_read_back(r.0, r.1);
    }
    if let Some(p) = s.pattern {
        saved_patterns_read_back(p);
    }
    if let Some(inst) = s.instrument {
        let p = config.instrument->0;
        read_settings_are_kept(inst.params@, p.params@, d);
        read_remaps_are_kept(inst.remap@, p.remap@, d);
        read_modulators_are_kept(s.modulators@, p.modulators@);
    }
    read_effects_are_kept(s.effects@, config.effects@, d);
}

/// A saved group that is loaded again has the name, volume, pan, effects and
/// modulators that it was saved with.
pub proof fn saved_groups_come_back(g: SaveGroup, raw: GroupRaw, config: GroupConfig, d: Decimals)
    requires
        group_reads(group_table(g), raw, d),
        group_loaded(raw, config),
    ensures
        group_kept(g, config, d),
{
    read_effects_are_kept(g.effects@, config.effects@, d);
    read_modulators_are_kept(g.modulators@, config.modulators@);
}

proof fn no_slot_errs(
    instruments: Seq<SaveInstrumentSlot>,
    raw: Seq<InstrumentSlotRaw>,
    n: nat,
    d: Decimals,
)
    requires
        n <= instruments.len() == raw.len(),
        forall|i: int| 0 <= i < instruments.len() ==> saveable(#[trigger] instruments[i]),
        forall|i: int|
            0 <= i < instruments.len() ==> slot_reads(
                slot_table(#[trigger] instruments[i]),
                raw[i],
                d,
            ),
    ensures
        first_error(raw, n) is None,
    decreases n,
{
    if n > 0 {
        no_slot_errs(instruments, raw, (n - 1) as nat, d);
        saved_slots_load(instruments[n - 1], raw[n - 1], n - 1, d);
    }
}

/// A saved session loads again, without an error, and has the instruments, groups
/// and piano scale that it was saved with: as many of each and in the same order,
/// each with what it was saved with.
pub proof fn saved_sessions_come_back(
    instruments: Seq<SaveInstrumentSlot>,
    groups: Seq<SaveGroup>,
    piano: Option<PianoConfig>,
    out: SessionOut,
    raw: SessionRaw,
    config: SessionConfig,
    d: Decimals,
)
    requires
        session_saved(instruments, groups, piano, out),
        session_reads(out, raw, d),
        forall|i: int| 0 <= i < instruments.len() ==> saveable(#[trigger] instruments[i]),
        forall|i: int|
            0 <= i < instruments.len() ==> ((#[trigger] instruments[i]).group matches Some(g)
                ==> g < groups.len()),
    ensures
        first_error(raw.instruments@, raw.instruments@.len()) is None,
        session_loaded(raw, config) ==> session_kept(instruments, groups, piano, config, d),
{
    assert forall|i: int| 0 <= i < instruments.len() implies slot_reads(
        slot_table(#[trigger] instruments[i]),
        raw.instruments@[i],
        d,
    ) by {
        assert(out.instruments@[i]@ == slot_table(instruments[i]));
    }
    no_slot_errs(instruments, raw.instruments@, instruments.len(), d);
    if session_loaded(raw, config) {
        assert forall|i: int| 0 <= i < instruments.len() implies slot_kept(
            instruments[i],
            #[trigger] config.instruments@[i],
            d,
        ) by {
            assert(slot_reads(slot_table(instruments[i]), raw.instruments@[i], d));
            assert(slot_loaded(
                raw.instruments@[i],
                raw.groups@.len(),
                config.instruments@[i],
            ));
            saved_slots_come_back(
                instruments[i],
                raw.instruments@[i],
                groups.len(),
                config.instruments@[i],
                d,
            );
        }
        assert forall|i: int| 0 <= i < groups.len() implies group_kept(
            groups[i],
            #[trigger] config.groups@[i],
            d,
        ) by {
            assert(out.groups@[i]@ == group_table(groups[i]));
            assert(group_loaded(raw.groups@[i], config.groups@[i]));
            saved_groups_come_back(groups[i], raw.groups@[i], config.groups@[i], d);
        }
    }
}

// ---------------------------------------------------------------------------
// Sorted settings and remappings
// ---------------------------------------------------------------------------

/// The value that the last of the first `n` settings of a name gives it.
pub open spec fn last_setting(settings: Seq<SettingModel>, name: Seq<char>, n: nat) -> Option<
    SettingModel,
>
    decreases n,
{
    if n == 0 {
        None
    } else if settings[n - 1].name == name {
        Some(settings[n - 1])
    } else {
        last_setting(settings, name, (n - 1) as nat)
    }
}

/// Saved settings are in dictionary order with each name once, and a name has
/// the value of its last setting.
pub proof fn saved_settings_keep_values(settings: Seq<SettingModel>, n: nat, name: Seq<char>)
    requires
        n <= settings.len(),
    ensures
        ({
            let sorted = settings_sorted(settings, n);
            &&& keys_sorted(setting_names(sorted))
            &&& match last_setting(settings, name, n) {
                Some(s) => s.name == name && sorted.contains(s),
                None => forall|i: int| 0 <= i < sorted.len() ==> (#[trigger] sorted[i]).name != name,
            }
        }),
    decreases n,
{
    sorted_settings_in_order(settings, n);
    if n > 0 {
        saved_settings_keep_values(settings, (n - 1) as nat, name);
        let before = settings_sorted(settings, (n - 1) as nat);
        let s = settings[n - 1];
        let keys = setting_names(before);
        let at = key_place(keys, s.name, keys.len()) as int;
        placing_keeps_keys_sorted(keys, s.name);
        let after = settings_sorted(settings, n);
        let there = at < before.len() && before[at].name == s.name;
        assert(after[at] == s);
        if s.name != name {
            if let Some(found) = last_setting(settings, name, (n - 1) as nat) {
                let i = choose|i: int| 0 <= i < before.len() && before[i] == found;
                if there || i < at {
                    assert(after[i] == found);
                } else {
                    assert(after[i + 1] == found);
                }
            } else {
                assert forall|i: int| 0 <= i < after.len() implies (#[trigger] after[i]).name
                    != name by {
                    if i != at {
                        if there || i < at {
                            assert(after[i] == before[i]);
                        } else {
                            assert(after[i] == before[i - 1]);
                        }
                    }
                }
            }
        }
    }
}

/// What the last of the first `n` remappings of a note makes of it.
pub open spec fn last_remap(remap: Seq<RemapModel>, source: Seq<char>, n: nat) -> Option<RemapModel>
    decreases n,
{
    if n == 0 {
        None
    } else if remap[n - 1].source == source {
        Some(remap[n - 1])
    } else {
        last_remap(remap, source, (n - 1) as nat)
    }
}

/// Saved remappings are in dictionary order with each note once, and a note
/// has the target of its last remapping.
pub proof fn saved_remaps_keep_targets(remap: Seq<RemapModel>, n: nat, source: Seq<char>)
    requires
        n <= remap.len(),
    ensures
        ({
            let sorted = remaps_sorted(remap, n);
            &&& keys_sorted(remap_names(sorted))
            &&& match last_remap(remap, source, n) {
                Some(r) => r.source == source && sorted.contains(r),
                None => forall|i: int|
                    0 <= i < sorted.len() ==> (#[trigger] sorted[i]).source != source,
            }
        }),
    decreases n,
{
    if n > 0 {
        saved_remaps_keep_targets(remap, (n - 1) as nat, source);
        let before = remaps_sorted(remap, (n - 1) as nat);
        let r = remap[n - 1];
        let keys = remap_names(before);
        let at = key_place(keys, r.source, keys.len()) as int;
        placing_keeps_keys_sorted(keys, r.source);
        let after = remaps_sorted(remap, n);
        let there = at < before.len() && before[at].source == r.source;
        if there {
            assert(remap_names(after) =~= keys);
        } else {
            assert(remap_names(after) =~= keys.insert(at, r.source));
        }
        assert(after[at] == r);
        if r.source != source {
            if let Some(found) = last_remap(remap, source, (n - 1) as nat) {
                let i = choose|i: int| 0 <= i < before.len() && before[i] == found;
                if there || i < at {
                    assert(after[i] == found);
                } else {
                    assert(after[i + 1] == found);
                }
            } else {
                assert forall|i: int| 0 <= i < after.len() implies (#[trigger] after[i]).source
                    != source by {
                    if i != at {
                        if there || i < at {
                            assert(after[i] == before[i]);
                        } else {
                            assert(after[i] == before[i - 1]);
                        }
                    }
                }
            }
        }
    }
}

} // verus!
