//! What the built-in plugins do with notes and parameters.

use vstd::arithmetic::power2::{lemma2_to64, lemma_pow2_adds, lemma_pow2_pos, lemma_pow2_unfold, pow2};
use vstd::prelude::*;

use crate::event::MidiEvent;
use crate::modulator_laws::{finite, place};
use crate::oscillator::{
    due, oscillator_params, settled, voices_after, voices_after_events, Oscillator, Voice,
    VoiceState, Waveform,
};
use crate::playback_laws::{lets_go, presses};
use crate::reverb::{
    is_size, preset_models, preset_with_id, presets_are_found, reverb_params, size_jumps, size_steps,
    Reverb,
};
use crate::scalar::F32Bits;
use crate::scalar_laws::{distance, is_finite, one, size, sizes_ordered, unsigned, value};

verus! {

// ---------------------------------------------------------------------------
// Oscillator
// ---------------------------------------------------------------------------

proof fn sizes_of_halves()
    ensures
        2 * size(0x3f00_0000) == one(),
        2 * size(0x3fc0_0000) == 3 * one(),
        2 * size(0x4020_0000) == 5 * one(),
        2 * size(0x4060_0000) == 7 * one(),
        one() > 0,
{
    let p = pow2(125) as int;
    lemma_pow2_pos(125);
    lemma_pow2_unfold(126);
    lemma_pow2_unfold(127);
    lemma_pow2_adds(23, 126);
    lemma2_to64();
    assert(pow2(23) == 0x80_0000);
    assert(one() == 0x80_0000 * (2 * p));
    assert(0x3f00_0000int / 0x80_0000 == 126 && 0x3f00_0000int % 0x80_0000 == 0);
    assert(0x3fc0_0000int / 0x80_0000 == 127 && 0x3fc0_0000int % 0x80_0000 == 0x40_0000);
    assert(0x4020_0000int / 0x80_0000 == 128 && 0x4020_0000int % 0x80_0000 == 0x20_0000);
    assert(0x4060_0000int / 0x80_0000 == 128 && 0x4060_0000int % 0x80_0000 == 0x60_0000);
    assert(pow2(127) == 4 * p);
}

/// A parameter value stands for the waveform that the nearest whole number
/// counts, halves counting upwards: 1 is the triangle, 2 the square, 3 the saw,
/// and all others are the sine. What is not finite is a sine too.
pub proof fn waveforms_are_counted(v: F32Bits)
    ensures
        is_finite(v) ==> Waveform::of_param(v) == (if one() <= 2 * value(v) < 3 * one() {
            Waveform::Triangle
        } else if 3 * one() <= 2 * value(v) < 5 * one() {
            Waveform::Square
        } else if 5 * one() <= 2 * value(v) < 7 * one() {
            Waveform::Saw
        } else {
            Waveform::Sine
        }),
        !is_finite(v) ==> Waveform::of_param(v) is Sine,
{
    sizes_of_halves();
    let m = unsigned(v);
    sizes_ordered(m, 0x3f00_0000);
    sizes_ordered(m, 0x3fc0_0000);
    sizes_ordered(m, 0x4020_0000);
    sizes_ordered(m, 0x4060_0000);
}

/// A voice's attack runs to 1.0 and into the decay, the decay to the sustain level
/// and into the sustain; the sustain stays at its level, and the release runs to
/// silence but not below. Short of its end a stage goes on at the level stepped
/// to. A voice is over once it is released and not above silence.
pub proof fn voices_follow_their_envelope(v: Voice, stepped: F32Bits, sustain: F32Bits)
    requires
        finite(stepped),
        finite(sustain),
        finite(v.amp),
    ensures
        ({
            let w = v.advanced(stepped, sustain);
            &&& w.phase == v.phase
            &&& match v.state {
                VoiceState::Attack => if place(stepped) >= 0x3f80_0000 {
                    w.state is Decay && w.amp.bits == 0x3f80_0000
                } else {
                    w.state is Attack && w.amp == stepped
                },
                VoiceState::Decay => if place(stepped) <= place(sustain) {
                    w.state is Sustain && w.amp == sustain
                } else {
                    w.state is Decay && w.amp == stepped
                },
                VoiceState::Sustain => w.state is Sustain && w.amp == sustain,
                VoiceState::Release => w.state is Release && w.amp == (if place(stepped) < 0 {
                    F32Bits { bits: 0 }
                } else {
                    stepped
                }),
            }
            &&& v.over() == (v.state is Release && place(v.amp) <= 0)
        }),
{
}

/// A press starts the attack of its note's voice, from where the voice is if it
/// still sounds, else from silence; letting go starts the release of a voice that
/// sounds. Voices of other notes are left, and so are all by other messages.
pub proof fn messages_start_and_release_voices(
    voices: Map<u8, Voice>,
    ev: MidiEvent,
    other: u8,
)
    ensures
        ({
            let after = voices_after(voices, ev.1);
            let note = ev.1[1];
            &&& !presses(ev) && !lets_go(ev) ==> after == voices
            &&& other != note ==> after.contains_key(other) == voices.contains_key(other)
                && after[other] == voices[other]
            &&& presses(ev) ==> {
                &&& after.contains_key(note)
                &&& after[note].state is Attack
                &&& voices.contains_key(note) ==> after[note].amp == voices[note].amp
                    && after[note].phase == voices[note].phase
                &&& !voices.contains_key(note) ==> after[note].amp.bits == 0
                    && after[note].phase.bits == 0
            }
            &&& lets_go(ev) ==> {
                &&& after.contains_key(note) == voices.contains_key(note)
                &&& voices.contains_key(note) ==> after[note].state is Release
                    && after[note].amp == voices[note].amp && after[note].phase
                    == voices[note].phase
            }
        }),
{
    let after = voices_after(voices, ev.1);
    if other != ev.1[1] && !voices.contains_key(other) {
        if after != voices {
            assert(!after.contains_key(other));
        }
    }
}

proof fn due_runs(events: Seq<MidiEvent>, from: int, frame: int)
    requires
        0 <= from <= events.len(),
    ensures
        from <= due(events, from, frame) <= events.len(),
        forall|i: int|
            from <= i < due(events, from, frame) ==> (#[trigger] events[i]).0 <= frame,
        due(events, from, frame) < events.len() ==> events[due(events, from, frame)].0 > frame,
    decreases events.len() - from,
{
    if from < events.len() && events[from].0 <= frame {
        due_runs(events, from + 1, frame);
    }
}

/// The events that are heard are those from the first on whose time has come, up
/// to the first whose time has not; they are heard one after another.
pub proof fn events_are_heard_in_time(
    voices: Map<u8, Voice>,
    events: Seq<MidiEvent>,
    from: int,
    frame: int,
    n: int,
)
    requires
        0 <= from <= events.len(),
    ensures
        ({
            let next = due(events, from, frame);
            &&& from <= next <= events.len()
            &&& forall|i: int| from <= i < next ==> (#[trigger] events[i]).0 <= frame
            &&& next < events.len() ==> events[next].0 > frame
            &&& voices_after_events(voices, events, from, from) == voices
            &&& from <= n < events.len() ==> voices_after_events(voices, events, from, n + 1)
                == voices_after(voices_after_events(voices, events, from, n), events[n].1)
        }),
{
    due_runs(events, from, frame);
}

/// The bounds and the usual value of the oscillator's parameters, by their bits:
/// waveform 0 to 3, detune 24 semitones either way, volume and sustain 0 to 1,
/// times 0 to 10 seconds, pan -1 to 1.
pub open spec fn oscillator_bits(index: int) -> (u32, u32, u32) {
    if index == 0 {
        (0, 0x4040_0000, 0)
    } else if index == 1 {
        (0xc1c0_0000, 0x41c0_0000, 0)
    } else if index == 2 {
        (0, 0x3f80_0000, 0x3f80_0000)
    } else if index == 3 {
        (0, 0x4120_0000, 0x3b83_126f)
    } else if index == 4 {
        (0, 0x4120_0000, 0x3dcc_cccd)
    } else if index == 5 {
        (0, 0x3f80_0000, 0x3f80_0000)
    } else if index == 6 {
        (0, 0x4120_0000, 0x3c44_9ba6)
    } else {
        (0xbf80_0000, 0x3f80_0000, 0)
    }
}

/// The names of the oscillator's parameters.
pub open spec fn oscillator_names() -> Seq<Seq<char>> {
    seq![
        "waveform"@,
        "detune"@,
        "volume"@,
        "attack"@,
        "decay"@,
        "sustain"@,
        "release"@,
        "pan"@,
    ]
}

/// Every parameter of the oscillator is listed at its own index with its name, its
/// bounds and usual value, and takes the values that its bounds allow: one between them
/// as it is, one beyond as the nearer bound.
pub proof fn oscillator_parameters_keep_their_bounds(index: u32, v: F32Bits)
    requires
        index < 8,
        finite(v),
    ensures
        ({
            let p = oscillator_params()[index as int];
            let kept = settled(index, v);
            &&& oscillator_params().len() == 8
            &&& p.index == index
            &&& p.name == oscillator_names()[index as int]
            &&& index == 0 ==> p.labels == Some(seq!["sine"@, "triangle"@, "square"@, "saw"@])
            &&& index > 0 ==> p.labels is None
            &&& (p.min.bits, p.max.bits, p.default.bits) == oscillator_bits(index as int)
            &&& place(p.min) <= place(p.default) <= place(p.max)
            &&& place(p.min) <= place(kept) <= place(p.max)
            &&& index > 0 && place(p.min) <= place(v) <= place(p.max) ==> kept == v
            &&& index > 0 && place(v) < place(p.min) ==> kept == p.min
            &&& index > 0 && place(v) > place(p.max) ==> kept == p.max
        }),
{
}

/// Setting a parameter of the oscillator reads back, changes no other parameter
/// and leaves voices, rate and what is being applied.
pub proof fn oscillator_settings_stay_apart(osc: Oscillator, index: u32, v: F32Bits)
    ensures
        ({
            let after = osc.with_param(index, v);
            &&& after.voices == osc.voices
            &&& after.sample_rate == osc.sample_rate
            &&& after.volume_smoothed == osc.volume_smoothed
            &&& after.pan_smoothed == osc.pan_smoothed
            &&& index != 0 ==> after.waveform == osc.waveform
            &&& index != 1 ==> after.detune == osc.detune
            &&& index != 2 ==> after.volume == osc.volume
            &&& index != 3 ==> after.attack == osc.attack
            &&& index != 4 ==> after.decay == osc.decay
            &&& index != 5 ==> after.sustain == osc.sustain
            &&& index != 6 ==> after.release == osc.release
            &&& index != 7 ==> after.pan == osc.pan
            &&& index == 0 ==> after.waveform == Waveform::of_param(v)
            &&& index == 1 ==> after.detune == settled(index, v)
            &&& index == 2 ==> after.volume == settled(index, v)
            &&& index == 3 ==> after.attack == settled(index, v)
            &&& index == 4 ==> after.decay == settled(index, v)
            &&& index == 5 ==> after.sustain == settled(index, v)
            &&& index == 6 ==> after.release == settled(index, v)
            &&& index == 7 ==> after.pan == settled(index, v)
        }),
        osc.param(1) == Some(osc.detune),
        osc.param(2) == Some(osc.volume),
        osc.param(3) == Some(osc.attack),
        osc.param(4) == Some(osc.decay),
        osc.param(5) == Some(osc.sustain),
        osc.param(6) == Some(osc.release),
        osc.param(7) == Some(osc.pan),
        index > 7 ==> osc.param(index) is None && osc.with_param(index, v) == osc,
{
}

// ---------------------------------------------------------------------------
// Reverb
// ---------------------------------------------------------------------------

/// The bounds and the usual value of the reverb's parameters, by their bits:
/// decay 0.1 to 0.99, size 0.3 to 1, damping 0 to 1, predelay 0 to 0.25,
/// diffusion 0 to 0.85, modulation rate 0.05 to 2, modulation depth and width 0
/// to 1, low cut 20 to 500, level 0 to 2.
pub open spec fn reverb_bits(index: int) -> (u32, u32, u32) {
    if index == 0 {
        (0x3dcc_cccd, 0x3f7d_70a4, 0x3f61_47ae)
    } else if index == 1 {
        (0x3e99_999a, 0x3f80_0000, 0x3f59_999a)
    } else if index == 2 {
        (0, 0x3f80_0000, 0x3eb3_3333)
    } else if index == 3 {
        (0, 0x3e80_0000, 0x3d23_d70a)
    } else if index == 4 {
        (0, 0x3f59_999a, 0x3f33_3333)
    } else if index == 5 {
        (0x3d4c_cccd, 0x4000_0000, 0x3e99_999a)
    } else if index == 6 {
        (0, 0x3f80_0000, 0x3f00_0000)
    } else if index == 7 {
        (0, 0x3f80_0000, 0x3f80_0000)
    } else if index == 8 {
        (0x41a0_0000, 0x43fa_0000, 0x42a0_0000)
    } else {
        (0, 0x4000_0000, 0x3f80_0000)
    }
}

/// The names of the reverb's parameters.
pub open spec fn reverb_names() -> Seq<Seq<char>> {
    seq![
        "decay"@,
        "size"@,
        "damping"@,
        "predelay"@,
        "diffusion"@,
        "mod_rate"@,
        "mod_depth"@,
        "width"@,
        "lowcut"@,
        "level"@,
    ]
}

/// Every parameter of the reverb is listed at its own index with its name, its
/// bounds and usual value, which lies between them.
pub proof fn reverb_parameters_keep_their_bounds(index: u32)
    requires
        index < 10,
    ensures
        ({
            let p = reverb_params()[index as int];
            &&& reverb_params().len() == 10
            &&& p.index == index
            &&& p.name == reverb_names()[index as int]
            &&& p.labels is None
            &&& (p.min.bits, p.max.bits, p.default.bits) == reverb_bits(index as int)
            &&& place(p.min) <= place(p.default) <= place(p.max)
        }),
{
}

/// Setting a parameter of the reverb changes the field that goes by its name, and
/// nothing else; there it is read back.
pub proof fn reverb_settings_stay_apart(reverb: Reverb, index: u32, v: F32Bits)
    ensures
        ({
            let after = reverb.with_param(index, v);
            &&& after == (Reverb {
                decay: after.decay,
                size: after.size,
                damping: after.damping,
                predelay_sec: after.predelay_sec,
                diffusion: after.diffusion,
                mod_rate: after.mod_rate,
                mod_depth: after.mod_depth,
                width: after.width,
                lowcut_hz: after.lowcut_hz,
                level: after.level,
                ..reverb
            })
            &&& after.decay == if index == 0 { v } else { reverb.decay }
            &&& after.size == if index == 1 { v } else { reverb.size }
            &&& after.damping == if index == 2 { v } else { reverb.damping }
            &&& after.predelay_sec == if index == 3 { v } else { reverb.predelay_sec }
            &&& after.diffusion == if index == 4 { v } else { reverb.diffusion }
            &&& after.mod_rate == if index == 5 { v } else { reverb.mod_rate }
            &&& after.mod_depth == if index == 6 { v } else { reverb.mod_depth }
            &&& after.width == if index == 7 { v } else { reverb.width }
            &&& after.lowcut_hz == if index == 8 { v } else { reverb.lowcut_hz }
            &&& after.level == if index == 9 { v } else { reverb.level }
        }),
        reverb.param(0) == Some(reverb.decay),
        reverb.param(1) == Some(reverb.size),
        reverb.param(2) == Some(reverb.damping),
        reverb.param(3) == Some(reverb.predelay_sec),
        reverb.param(4) == Some(reverb.diffusion),
        reverb.param(5) == Some(reverb.mod_rate),
        reverb.param(6) == Some(reverb.mod_depth),
        reverb.param(7) == Some(reverb.width),
        reverb.param(8) == Some(reverb.lowcut_hz),
        reverb.param(9) == Some(reverb.level),
        index > 9 ==> reverb.param(index) is None,
{
}

/// The nearest numbers to what the presets of the reverb give for its parameters,
/// by their bits:
/// - 0.94, 0.95, 0.3, 0.06, 0.78, 0.25, 0.7, 1, 80, 0.85;
/// - 0.96, 1, 0.55, 0.1, 0.72, 0.15, 0.55, 1, 60, 0.8;
/// - 0.8, 0.55, 0.25, 0.02, 0.78, 0.18, 0.3, 0.85, 120, 1;
/// - 0.55, 0.4, 0.4, 0.01, 0.65, 0.4, 0.2, 0.9, 100, 1;
/// - 0.96, 0.95, 0.2, 0.12, 0.78, 0.45, 0.85, 1, 100, 0.8.
pub open spec fn preset_bits(i: int) -> Seq<u32> {
    if i == 0 {
        seq![0x3f70_a3d7u32, 0x3f73_3333, 0x3e99_999a, 0x3d75_c28f, 0x3f47_ae14, 0x3e80_0000, 0x3f33_3333, 0x3f80_0000, 0x42a0_0000, 0x3f59_999a]
    } else if i == 1 {
        seq![0x3f75_c28fu32, 0x3f80_0000, 0x3f0c_cccd, 0x3dcc_cccd, 0x3f38_51ec, 0x3e19_999a, 0x3f0c_cccd, 0x3f80_0000, 0x4270_0000, 0x3f4c_cccd]
    } else if i == 2 {
        seq![0x3f4c_cccdu32, 0x3f0c_cccd, 0x3e80_0000, 0x3ca3_d70a, 0x3f47_ae14, 0x3e38_51ec, 0x3e99_999a, 0x3f59_999a, 0x42f0_0000, 0x3f80_0000]
    } else if i == 3 {
        seq![0x3f0c_cccdu32, 0x3ecc_cccd, 0x3ecc_cccd, 0x3c23_d70a, 0x3f26_6666, 0x3ecc_cccd, 0x3e4c_cccd, 0x3f66_6666, 0x42c8_0000, 0x3f80_0000]
    } else {
        seq![0x3f75_c28fu32, 0x3f73_3333, 0x3e4c_cccd, 0x3df5_c28f, 0x3f47_ae14, 0x3ee6_6666, 0x3f59_999a, 0x3f80_0000, 0x42c8_0000, 0x3f4c_cccd]
    }
}

/// The presets of the reverb, in order, each with its id, its name and a value for
/// every parameter; another id finds none.
pub proof fn reverb_presets_are_named(i: int, id: Seq<char>)
    requires
        0 <= i < 5,
    ensures
        ({
            let ids = seq!["arcadia"@, "cathedral"@, "plate"@, "room"@, "ambient"@];
            let names = seq![
                "Arcadia Dream Hall"@,
                "Cathedral"@,
                "Vintage Plate"@,
                "Small Room"@,
                "Ambient Wash"@,
            ];
            let p = preset_models()[i];
            &&& preset_models().len() == 5
            &&& p.id == ids[i]
            &&& p.name == names[i]
            &&& p.values == preset_bits(i)
            &&& preset_with_id(ids[i], 0) == Some(i as nat)
            &&& !ids.contains(id) ==> preset_with_id(id, 0) is None
        }),
{
    presets_are_found(i as nat);
    let ids = seq!["arcadia"@, "cathedral"@, "plate"@, "room"@, "ambient"@];
    assert(ids[0] == "arcadia"@ && ids[1] == "cathedral"@ && ids[2] == "plate"@ && ids[3] == "room"@
        && ids[4] == "ambient"@);
    if !ids.contains(id) {
        reveal_with_fuel(preset_with_id, 6);
        assert(forall|k: int| 0 <= k < 5 ==> ids[k] != id);
        assert(forall|k: int| 0 <= k < 5 ==> #[trigger] preset_models()[k].id == ids[k]);
    }
}

proof fn steps_measure_sizes(s: F32Bits)
    requires
        0x3e80_0000 <= s.bits <= 0x3f80_0000,
    ensures
        value(s) == size_steps(s) * pow2(124),
        size(0x3ecc_cccd) == 13_421_773 * pow2(124),
        pow2(124) > 0,
{
    let p = pow2(124) as int;
    lemma_pow2_pos(124);
    lemma_pow2_unfold(125);
    lemma_pow2_unfold(126);
    let m = s.bits as int;
    assert(unsigned(s) == m);
    let f = m % 0x80_0000;
    assert(0x3ecc_cccdint / 0x80_0000 == 125 && 0x3ecc_cccdint % 0x80_0000 == 0x4c_cccd);
    if m < 0x3f00_0000 {
        assert(m / 0x80_0000 == 125 && f == m - 0x3e80_0000);
        assert(value(s) == (0x80_0000 + f) * p);
    } else if m < 0x3f80_0000 {
        assert(m / 0x80_0000 == 126 && f == m - 0x3f00_0000);
        assert(pow2(125) == 2 * p);
        let q = pow2(125) as int;
        assert((0x80_0000 + f) * q == (2 * (0x80_0000 + f)) * p) by (nonlinear_arith)
            requires
                q == 2 * p,
        ;
    } else {
        assert(m / 0x80_0000 == 127 && f == 0);
        assert(pow2(126) == 4 * p);
        let q = pow2(126) as int;
        assert(0x80_0000 * q == 0x200_0000 * p) by (nonlinear_arith)
            requires
                q == 4 * p,
        ;
    }
}

/// The size jumps exactly if the two sizes are further apart than 0.4; what is
/// not a number makes no jump.
pub proof fn sizes_jump_beyond_two_fifths(from: F32Bits, to: F32Bits)
    requires
        is_size(from),
        is_size(to),
    ensures
        from.is_number() && to.is_number() ==> size_jumps(from, to) == (distance(
            value(from),
            value(to),
        ) > size(0x3ecc_cccd)),
        !from.is_number() || !to.is_number() ==> !size_jumps(from, to),
{
    if from.is_number() && to.is_number() {
        steps_measure_sizes(from);
        steps_measure_sizes(to);
        let p = pow2(124) as int;
        let (a, b) = (size_steps(from), size_steps(to));
        assert(a * p - b * p == (a - b) * p) by (nonlinear_arith);
        let d = a - b;
        assert((d > 13_421_773) == (d * p > 13_421_773 * p)) by (nonlinear_arith)
            requires
                p > 0,
        ;
        assert((-d > 13_421_773) == (-(d * p) > 13_421_773 * p)) by (nonlinear_arith)
            requires
                p > 0,
        ;
    }
}

} // verus!
