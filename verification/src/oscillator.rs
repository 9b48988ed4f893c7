//! The built-in oscillator: its parameters and its voices.

use std::collections::HashMap;

use vstd::prelude::*;

use crate::config::{param_list, text_list, ParamModel, ParameterInfo, Preset};
use crate::event::MidiEvent;
use crate::scalar::{F32Bits, MINUS_ONE, ONE};

verus! {

broadcast use vstd::std_specs::hash::group_hash_axioms;

/// The bits of 0.0.
pub const ZERO: u32 = 0;

/// The bits of 0.5.
pub const HALF: u32 = 0x3f00_0000;

/// The bits of 1.5.
pub const ONE_AND_HALF: u32 = 0x3fc0_0000;

/// The bits of 2.0.
pub const TWO: u32 = 0x4000_0000;

/// The bits of 2.5.
pub const TWO_AND_HALF: u32 = 0x4020_0000;

/// The bits of 3.0.
pub const THREE: u32 = 0x4040_0000;

/// The bits of 3.5.
pub const THREE_AND_HALF: u32 = 0x4060_0000;

/// The bits of -24.0, two octaves down.
pub const DETUNE_MIN: u32 = 0xc1c0_0000;

/// The bits of 24.0, two octaves up.
pub const DETUNE_MAX: u32 = 0x41c0_0000;

/// The bits of 10.0, the longest envelope time in seconds.
pub const TIME_MAX: u32 = 0x4120_0000;

/// The bits of 0.004, the usual attack in seconds.
pub const DEFAULT_ATTACK: u32 = 0x3b83_126f;

/// The bits of 0.1, the usual decay in seconds.
pub const DEFAULT_DECAY: u32 = 0x3dcc_cccd;

/// The bits of 0.012, the usual release in seconds.
pub const DEFAULT_RELEASE: u32 = 0x3c44_9ba6;

/// The number of parameters.
pub const PARAM_COUNT: usize = 8;

/// The shape of the wave.
#[derive(Clone, Copy, Debug, PartialEq, Eq, Structural)]
pub enum Waveform {
    Sine,
    Triangle,
    Square,
    Saw,
}

impl Waveform {
    /// The waveform that a parameter value stands for once it is rounded to a
    /// whole number, halves upwards: any other number stands for the sine.
    pub open spec fn of_param(v: F32Bits) -> Waveform {
        if !v.is_number() {
            Waveform::Sine
        } else if HALF <= v.rank() < ONE_AND_HALF {
            Waveform::Triangle
        } else if ONE_AND_HALF <= v.rank() < TWO_AND_HALF {
            Waveform::Square
        } else if TWO_AND_HALF <= v.rank() < THREE_AND_HALF {
            Waveform::Saw
        } else {
            Waveform::Sine
        }
    }

    /// The parameter value that stands for the waveform.
    pub open spec fn param(self) -> F32Bits {
        match self {
            Waveform::Sine => F32Bits { bits: ZERO },
            Waveform::Triangle => F32Bits { bits: ONE },
            Waveform::Square => F32Bits { bits: TWO },
            Waveform::Saw => F32Bits { bits: THREE },
        }
    }

    /// The waveform that a parameter value stands for.
    pub fn from_param(v: F32Bits) -> (w: Waveform)
        ensures
            w == Waveform::of_param(v),
    {
        if v.is_below(F32Bits { bits: HALF }) {
            Waveform::Sine
        } else if v.is_below(F32Bits { bits: ONE_AND_HALF }) {
            Waveform::Triangle
        } else if v.is_below(F32Bits { bits: TWO_AND_HALF }) {
            Waveform::Square
        } else if v.is_below(F32Bits { bits: THREE_AND_HALF }) {
            Waveform::Saw
        } else {
            Waveform::Sine
        }
    }

    /// The parameter value that stands for the waveform.
    pub fn to_param(self) -> (v: F32Bits)
        ensures
            v == self.param(),
    {
        F32Bits {
            bits: match self {
                Waveform::Sine => ZERO,
                Waveform::Triangle => ONE,
                Waveform::Square => TWO,
                Waveform::Saw => THREE,
            },
        }
    }
}

/// Every waveform is the one that its parameter value stands for.
pub proof fn waveforms_read_back(w: Waveform)
    ensures
        Waveform::of_param(w.param()) == w,
{
}

// ---------------------------------------------------------------------------
// Voices
// ---------------------------------------------------------------------------

/// Where a voice is in its envelope.
#[derive(Clone, Copy, Debug, PartialEq, Eq, Structural)]
pub enum VoiceState {
    Attack,
    Decay,
    Sustain,
    Release,
}

/// A sounding note.
#[derive(Clone, Copy, Debug)]
pub struct Voice {
    pub phase: F32Bits,
    pub amp: F32Bits,
    pub state: VoiceState,
}

impl Voice {
    /// A voice one frame later, its level stepped to `stepped` by the slope of
    /// its state: the attack ends at full level, the decay at the sustain
    /// level, which is then held, and the release at silence.
    pub open spec fn advanced(self, stepped: F32Bits, sustain: F32Bits) -> Voice {
        match self.state {
            VoiceState::Attack => if stepped.is_number() && stepped.rank() >= ONE {
                Voice { amp: F32Bits { bits: ONE }, state: VoiceState::Decay, ..self }
            } else {
                Voice { amp: stepped, ..self }
            },
            VoiceState::Decay => if stepped.is_number() && sustain.is_number()
                && stepped.rank() <= sustain.rank() {
                Voice { amp: sustain, state: VoiceState::Sustain, ..self }
            } else {
                Voice { amp: stepped, ..self }
            },
            VoiceState::Sustain => Voice { amp: sustain, ..self },
            VoiceState::Release => if stepped.is_number() && stepped.rank() < 0 {
                Voice { amp: F32Bits { bits: ZERO }, ..self }
            } else {
                Voice { amp: stepped, ..self }
            },
        }
    }

    /// A released voice that has become silent.
    pub open spec fn over(self) -> bool {
        self.state == VoiceState::Release && self.amp.is_number() && self.amp.rank() <= 0
    }

    /// The voice one frame later.
    pub fn advance(self, stepped: F32Bits, sustain: F32Bits) -> (v: Voice)
        ensures
            v == self.advanced(stepped, sustain),
    {
        match self.state {
            VoiceState::Attack => {
                let full = F32Bits { bits: ONE };
                if !stepped.is_below(full) && is_a_number(stepped) {
                    Voice { phase: self.phase, amp: full, state: VoiceState::Decay }
                } else {
                    Voice { phase: self.phase, amp: stepped, state: self.state }
                }
            },
            VoiceState::Decay => {
                if !sustain.is_below(stepped) && is_a_number(stepped) && is_a_number(sustain) {
                    Voice { phase: self.phase, amp: sustain, state: VoiceState::Sustain }
                } else {
                    Voice { phase: self.phase, amp: stepped, state: self.state }
                }
            },
            VoiceState::Sustain => Voice { phase: self.phase, amp: sustain, state: self.state },
            VoiceState::Release => {
                if stepped.is_below((F32Bits { bits: ZERO })) {
                    Voice {
                        phase: self.phase,
                        amp: F32Bits { bits: ZERO },
                        state: VoiceState::Release,
                    }
                } else {
                    Voice { phase: self.phase, amp: stepped, state: self.state }
                }
            },
        }
    }

    /// Whether a released voice has become silent.
    pub fn finished(&self) -> (r: bool)
        ensures
            r == self.over(),
    {
        match self.state {
            VoiceState::Release => {
                !(F32Bits { bits: ZERO }).is_below(self.amp) && is_a_number(self.amp)
            },
            _ => false,
        }
    }
}

fn is_a_number(v: F32Bits) -> (r: bool)
    ensures
        r == v.is_number(),
{
    !(v.bits > crate::scalar::INFINITY && v.bits < crate::scalar::SIGN) && !(v.bits
        > crate::scalar::SIGN && v.bits - crate::scalar::SIGN > crate::scalar::INFINITY)
}

/// The voices after a message. A note-on starts the attack, from the level the
/// voice has if it still sounds; a note-off starts the release.
pub open spec fn voices_after(voices: Map<u8, Voice>, midi: [u8; 3]) -> Map<u8, Voice> {
    let (status, note, velocity) = (midi[0], midi[1], midi[2]);
    if status & 0xF0 == 0x90 && velocity > 0 {
        voices.insert(
            note,
            if voices.contains_key(note) {
                Voice { state: VoiceState::Attack, ..voices[note] }
            } else {
                Voice {
                    phase: F32Bits { bits: ZERO },
                    amp: F32Bits { bits: ZERO },
                    state: VoiceState::Attack,
                }
            },
        )
    } else if (status & 0xF0 == 0x80 || status & 0xF0 == 0x90) && voices.contains_key(note) {
        voices.insert(note, Voice { state: VoiceState::Release, ..voices[note] })
    } else {
        voices
    }
}

/// The voices after the events `from..to`.
pub open spec fn voices_after_events(
    voices: Map<u8, Voice>,
    events: Seq<MidiEvent>,
    from: int,
    to: int,
) -> Map<u8, Voice>
    decreases to - from,
{
    if from >= to {
        voices
    } else {
        voices_after(voices_after_events(voices, events, from, to - 1), events[to - 1].1)
    }
}

/// The end of the run of events, from `from` on, that are due by `frame`.
pub open spec fn due(events: Seq<MidiEvent>, from: int, frame: int) -> int
    decreases events.len() - from,
{
    if from < events.len() && events[from].0 <= frame {
        due(events, from + 1, frame)
    } else {
        from
    }
}

// ---------------------------------------------------------------------------
// The oscillator
// ---------------------------------------------------------------------------

/// A polyphonic oscillator. Each voice has its own envelope, so notes attack
/// and release independently.
#[derive(Debug)]
pub struct Oscillator {
    pub sample_rate: F32Bits,
    pub voices: HashMap<u8, Voice>,
    /// In semitones, for all voices.
    pub detune: F32Bits,
    pub volume: F32Bits,
    /// The volume that is applied, on its way to `volume`.
    pub volume_smoothed: F32Bits,
    /// From -1.0, hard left, to 1.0, hard right.
    pub pan: F32Bits,
    /// The pan that is applied, on its way to `pan`.
    pub pan_smoothed: F32Bits,
    pub waveform: Waveform,
    pub attack: F32Bits,
    pub decay: F32Bits,
    pub sustain: F32Bits,
    pub release: F32Bits,
}

/// Why a plugin refused.
#[derive(Debug)]
pub enum PluginError {
    /// No parameter has this index.
    NoParameter { index: u32 },
    /// No preset has this id.
    NoPreset { id: String },
}

/// The lower and upper bound of a parameter.
pub open spec fn bounds(index: u32) -> (F32Bits, F32Bits) {
    if index == 1 {
        (F32Bits { bits: DETUNE_MIN }, F32Bits { bits: DETUNE_MAX })
    } else if index == 3 || index == 4 || index == 6 {
        (F32Bits { bits: ZERO }, F32Bits { bits: TIME_MAX })
    } else if index == 7 {
        (F32Bits { bits: MINUS_ONE }, F32Bits { bits: ONE })
    } else {
        (F32Bits { bits: ZERO }, F32Bits { bits: ONE })
    }
}

/// The value that a parameter takes when it is set to `v`: a waveform's number
/// for the first one, `v` within the bounds for the others.
pub open spec fn settled(index: u32, v: F32Bits) -> F32Bits {
    if index == 0 {
        Waveform::of_param(v).param()
    } else {
        v.limited(bounds(index).0, bounds(index).1)
    }
}

/// What the parameters are: name, bounds and usual value.
pub open spec fn oscillator_params() -> Seq<ParamModel> {
    seq![
        ParamModel {
            name: "waveform"@,
            index: 0,
            min: F32Bits { bits: ZERO },
            max: F32Bits { bits: THREE },
            default: F32Bits { bits: ZERO },
            labels: Some(seq!["sine"@, "triangle"@, "square"@, "saw"@]),
        },
        param_model("detune"@, 1, ZERO),
        param_model("volume"@, 2, ONE),
        param_model("attack"@, 3, DEFAULT_ATTACK),
        param_model("decay"@, 4, DEFAULT_DECAY),
        param_model("sustain"@, 5, ONE),
        param_model("release"@, 6, DEFAULT_RELEASE),
        param_model("pan"@, 7, ZERO),
    ]
}

/// A parameter that is a plain number.
pub open spec fn param_model(name: Seq<char>, index: u32, default: u32) -> ParamModel {
    ParamModel {
        name,
        index,
        min: bounds(index).0,
        max: bounds(index).1,
        default: F32Bits { bits: default },
        labels: None,
    }
}

fn number(name: &str, index: u32, min: u32, max: u32, default: u32) -> (p: ParameterInfo)
    requires
        bounds(index) == (F32Bits { bits: min }, F32Bits { bits: max }),
    ensures
        p@ == param_model(name@, index, default),
{
    ParameterInfo {
        name: name.to_owned(),
        index,
        min: F32Bits { bits: min },
        max: F32Bits { bits: max },
        default: F32Bits { bits: default },
        labels: None,
    }
}

impl Oscillator {
    /// The value of a parameter.
    pub open spec fn param(&self, index: u32) -> Option<F32Bits> {
        if index == 0 {
            Some(self.waveform.param())
        } else if index == 1 {
            Some(self.detune)
        } else if index == 2 {
            Some(self.volume)
        } else if index == 3 {
            Some(self.attack)
        } else if index == 4 {
            Some(self.decay)
        } else if index == 5 {
            Some(self.sustain)
        } else if index == 6 {
            Some(self.release)
        } else if index == 7 {
            Some(self.pan)
        } else {
            None
        }
    }

    /// The oscillator with a parameter set.
    pub open spec fn with_param(self, index: u32, v: F32Bits) -> Oscillator {
        let kept = v.limited(bounds(index).0, bounds(index).1);
        if index == 0 {
            Oscillator { waveform: Waveform::of_param(v), ..self }
        } else if index == 1 {
            Oscillator { detune: kept, ..self }
        } else if index == 2 {
            Oscillator { volume: kept, ..self }
        } else if index == 3 {
            Oscillator { attack: kept, ..self }
        } else if index == 4 {
            Oscillator { decay: kept, ..self }
        } else if index == 5 {
            Oscillator { sustain: kept, ..self }
        } else if index == 6 {
            Oscillator { release: kept, ..self }
        } else if index == 7 {
            Oscillator { pan: kept, ..self }
        } else {
            self
        }
    }

    /// A silent oscillator with its usual settings.
    pub fn new(sample_rate: F32Bits, waveform: Waveform) -> (osc: Oscillator)
        ensures
            osc.sample_rate == sample_rate,
            osc.waveform == waveform,
            osc.voices@ == Map::<u8, Voice>::empty(),
            osc.volume_smoothed == (F32Bits { bits: ONE }),
            osc.pan_smoothed == (F32Bits { bits: ZERO }),
            forall|i: u32|
                1 <= i < PARAM_COUNT ==> #[trigger] osc.param(i) == Some(
                    oscillator_params()[i as int].default,
                ),
    {
        Oscillator {
            sample_rate,
            voices: HashMap::new(),
            detune: F32Bits { bits: ZERO },
            volume: F32Bits { bits: ONE },
            volume_smoothed: F32Bits { bits: ONE },
            pan: F32Bits { bits: ZERO },
            pan_smoothed: F32Bits { bits: ZERO },
            waveform,
            attack: F32Bits { bits: DEFAULT_ATTACK },
            decay: F32Bits { bits: DEFAULT_DECAY },
            sustain: F32Bits { bits: ONE },
            release: F32Bits { bits: DEFAULT_RELEASE },
        }
    }

    /// The plugin's name.
    pub fn name(&self) -> (name: &'static str)
        ensures
            name@ == "Oscillator"@,
    {
        "Oscillator"
    }

    /// It is played by notes.
    pub fn is_instrument(&self) -> (r: bool)
        ensures
            r,
    {
        true
    }

    /// The sample rate it was made for.
    pub fn sample_rate(&self) -> (rate: F32Bits)
        ensures
            rate == self.sample_rate,
    {
        self.sample_rate
    }

    /// The number of its output channels.
    pub fn audio_output_count(&self) -> (n: usize)
        ensures
            n == 2,
    {
        2
    }

    /// The number of its input channels.
    pub fn audio_input_count(&self) -> (n: usize)
        ensures
            n == 0,
    {
        0
    }

    /// What its parameters are.
    pub fn parameters(&self) -> (params: Vec<ParameterInfo>)
        ensures
            param_list(params@) == oscillator_params(),
    {
        let mut labels: Vec<String> = Vec::new();
        labels.push("sine".to_owned());
        labels.push("triangle".to_owned());
        labels.push("square".to_owned());
        labels.push("saw".to_owned());
        assert(text_list(labels@) =~= seq!["sine"@, "triangle"@, "square"@, "saw"@]);
        let mut params: Vec<ParameterInfo> = Vec::new();
        params.push(
            ParameterInfo {
                name: "waveform".to_owned(),
                index: 0,
                min: F32Bits { bits: ZERO },
                max: F32Bits { bits: THREE },
                default: F32Bits { bits: ZERO },
                labels: Some(labels),
            },
        );
        params.push(number("detune", 1, DETUNE_MIN, DETUNE_MAX, ZERO));
        params.push(number("volume", 2, ZERO, ONE, ONE));
        params.push(number("attack", 3, ZERO, TIME_MAX, DEFAULT_ATTACK));
        params.push(number("decay", 4, ZERO, TIME_MAX, DEFAULT_DECAY));
        params.push(number("sustain", 5, ZERO, ONE, ONE));
        params.push(number("release", 6, ZERO, TIME_MAX, DEFAULT_RELEASE));
        params.push(number("pan", 7, MINUS_ONE, ONE, ZERO));
        assert(param_list(params@) =~= oscillator_params());
        params
    }

    /// The value of a parameter, if there is one with this index.
    pub fn get_parameter(&self, index: u32) -> (v: Option<F32Bits>)
        ensures
            v == self.param(index),
    {
        match index {
            0 => Some(self.waveform.to_param()),
            1 => Some(self.detune),
            2 => Some(self.volume),
            3 => Some(self.attack),
            4 => Some(self.decay),
            5 => Some(self.sustain),
            6 => Some(self.release),
            7 => Some(self.pan),
            _ => None,
        }
    }

    /// Set a parameter, within its bounds.
    pub fn set_parameter(&mut self, index: u32, value: F32Bits) -> (r: Result<(), PluginError>)
        ensures
            match r {
                Ok(_) => index < PARAM_COUNT && *final(self) == old(self).with_param(
                    index,
                    value,
                ),
                Err(e) => index >= PARAM_COUNT && *final(self) == *old(self) && e == (
                PluginError::NoParameter { index }),
            },
    {
        let zero = F32Bits { bits: ZERO };
        let one = F32Bits { bits: ONE };
        let time = F32Bits { bits: TIME_MAX };
        match index {
            0 => {
                self.waveform = Waveform::from_param(value);
            },
            1 => {
                self.detune =
                value.limit(F32Bits { bits: DETUNE_MIN }, F32Bits { bits: DETUNE_MAX });
            },
            2 => {
                self.volume = value.limit(zero, one);
            },
            3 => {
                self.attack = value.limit(zero, time);
            },
            4 => {
                self.decay = value.limit(zero, time);
            },
            5 => {
                self.sustain = value.limit(zero, one);
            },
            6 => {
                self.release = value.limit(zero, time);
            },
            7 => {
                self.pan = value.limit(F32Bits { bits: MINUS_ONE }, one);
            },
            _ => {
                return Err(PluginError::NoParameter { index });
            },
        }
        Ok(())
    }

    /// Its presets: it has none.
    pub fn presets(&self) -> (presets: Vec<Preset>)
        ensures
            presets@.len() == 0,
    {
        Vec::new()
    }

    /// Load a preset: it has none.
    pub fn load_preset(&mut self, id: &str) -> (r: Result<(), PluginError>)
        ensures
            *final(self) == *old(self),
            r matches Err(PluginError::NoPreset { id: named }) && named@ == id@,
    {
        Err(PluginError::NoPreset { id: id.to_owned() })
    }

    /// Hear the events that are due by `frame`, from number `from` on. What is
    /// handed back is the number of the first event that is not.
    pub fn hear(&mut self, events: &Vec<MidiEvent>, from: usize, frame: usize) -> (next: usize)
        requires
            from <= events@.len(),
        ensures
            next == due(events@, from as int, frame as int),
            from <= next <= events@.len(),
            final(self).voices@ == voices_after_events(
                old(self).voices@,
                events@,
                from as int,
                next as int,
            ),
            *final(self) == (Oscillator { voices: final(self).voices, ..*old(self) }),
    {
        let mut next: usize = from;
        let ghost start = self.voices@;
        let ghost before = *self;
        while next < events.len() && events[next].0 <= frame as u64
            invariant
                from <= next <= events@.len(),
                due(events@, from as int, frame as int) == due(
                    events@,
                    next as int,
                    frame as int,
                ),
                self.voices@ == voices_after_events(start, events@, from as int, next as int),
                *self == (Oscillator { voices: self.voices, ..before }),
            decreases events.len() - next,
        {
            self.hear_one(&events[next].1);
            next += 1;
        }
        next
    }

    fn hear_one(&mut self, midi: &[u8; 3])
        ensures
            final(self).voices@ == voices_after(old(self).voices@, *midi),
            *final(self) == (Oscillator { voices: final(self).voices, ..*old(self) }),
    {
        let status: u8 = midi[0] & 0xF0;
        let note: u8 = midi[1];
        let known: Option<Voice> = match self.voices.get(&note) {
            Some(v) => Some(*v),
            None => None,
        };
        if status == 0x90 && midi[2] > 0 {
            let voice = match known {
                Some(v) => Voice { phase: v.phase, amp: v.amp, state: VoiceState::Attack },
                None => Voice {
                    phase: F32Bits { bits: ZERO },
                    amp: F32Bits { bits: ZERO },
                    state: VoiceState::Attack,
                },
            };
            self.voices.insert(note, voice);
        } else if status == 0x80 || status == 0x90 {
            if let Some(v) = known {
                self.voices.insert(
                    note,
                    Voice { phase: v.phase, amp: v.amp, state: VoiceState::Release },
                );
            }
        }
    }
}

// ---------------------------------------------------------------------------
// Laws
// ---------------------------------------------------------------------------

/// A parameter that is set reads back as the value kept within its bounds, the
/// first one as the number of the waveform, and the other parameters keep
/// theirs.
pub proof fn parameters_read_back(osc: Oscillator, index: u32, v: F32Bits, other: u32)
    requires
        index < PARAM_COUNT,
    ensures
        osc.with_param(index, v).param(index) == Some(settled(index, v)),
        other != index ==> osc.with_param(index, v).param(other) == osc.param(other),
{
}

/// A value within the bounds is kept as it is, and every other number ends up
/// within them.
pub proof fn settings_stay_in_bounds(index: u32, v: F32Bits)
    requires
        1 <= index < PARAM_COUNT,
        v.is_number(),
    ensures
        ({
            let (min, max) = bounds(index);
            let kept = settled(index, v);
            &&& !kept.less(min) && !max.less(kept)
            &&& !v.less(min) && !max.less(v) ==> kept == v
        }),
{
}

/// A note that is released while it sounds goes on sounding, in its release:
/// only what is over falls silent.
pub proof fn release_keeps_voice(voices: Map<u8, Voice>, note: u8, velocity: u8)
    requires
        voices.contains_key(note),
    ensures
        ({
            let after = voices_after(voices, [0x80, note, velocity]);
            &&& after.dom() == voices.dom()
            &&& after[note].state == VoiceState::Release
            &&& after[note].amp == voices[note].amp
        }),
{
    assert(0x80u8 & 0xF0 == 0x80) by (bit_vector);
    assert(voices_after(voices, [0x80, note, velocity]).dom() =~= voices.dom());
}

} // verus!
