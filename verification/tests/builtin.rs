use tang::oscillator::{self, Oscillator, PluginError, Voice, VoiceState, Waveform};
use tang::reverb::{self, Allpass, DelayLine, Reverb};
use tang::scalar::F32Bits;

const SAMPLE_RATE: f32 = 48000.0;

fn b(v: f32) -> F32Bits {
    F32Bits { bits: v.to_bits() }
}

fn f(v: F32Bits) -> f32 {
    f32::from_bits(v.bits)
}

fn osc() -> Oscillator {
    Oscillator::new(b(SAMPLE_RATE), Waveform::Sine)
}

fn set(osc: &mut Oscillator, index: u32, value: f32) {
    osc.set_parameter(index, b(value)).unwrap();
}

fn get(osc: &Oscillator, index: u32) -> Option<f32> {
    osc.get_parameter(index).map(f)
}

#[test]
fn parameters_match_param_count() {
    assert_eq!(osc().parameters().len(), oscillator::PARAM_COUNT);
}

#[test]
fn parameters_in_named_order() {
    let params = osc().parameters();
    let names: Vec<&str> = params.iter().map(|p| p.name.as_str()).collect();
    assert_eq!(
        names,
        ["waveform", "detune", "volume", "attack", "decay", "sustain", "release", "pan"]
    );
    // The waveform parameter is a choice.
    assert!(params[0].labels.is_some());
}

#[test]
fn saw_waveform_selectable() {
    // Saw is index 3 (appended after square) and round-trips.
    assert_eq!(osc().parameters()[0].labels.as_ref().unwrap()[3], "saw");
    let mut osc = osc();
    set(&mut osc, 0, 3.0);
    assert_eq!(get(&osc, 0), Some(3.0));
    assert_eq!(osc.waveform, Waveform::Saw);
}

#[test]
fn waveform_parameter_rounds() {
    for (value, waveform) in [
        (-1.0, Waveform::Sine),
        (0.49, Waveform::Sine),
        (0.5, Waveform::Triangle),
        (1.4, Waveform::Triangle),
        (1.5, Waveform::Square),
        (2.5, Waveform::Saw),
        (3.49, Waveform::Saw),
        (3.5, Waveform::Sine),
        (f32::NAN, Waveform::Sine),
        (f32::INFINITY, Waveform::Sine),
    ] {
        assert_eq!(Waveform::from_param(b(value)), waveform, "{value}");
        let rounded = match value.round() as i32 {
            1 => Waveform::Triangle,
            2 => Waveform::Square,
            3 => Waveform::Saw,
            _ => Waveform::Sine,
        };
        assert_eq!(rounded, waveform, "{value}");
    }
    for w in [Waveform::Sine, Waveform::Triangle, Waveform::Square, Waveform::Saw] {
        assert_eq!(Waveform::from_param(w.to_param()), w);
    }
}

#[test]
fn volume_round_trips_and_clamps() {
    let mut osc = osc();
    assert_eq!(get(&osc, 2), Some(1.0));
    set(&mut osc, 2, 0.7);
    assert_eq!(get(&osc, 2), Some(0.7));
    set(&mut osc, 2, 2.5);
    assert_eq!(get(&osc, 2), Some(1.0));
    set(&mut osc, 2, -1.0);
    assert_eq!(get(&osc, 2), Some(0.0));
}

#[test]
fn pan_round_trips_and_clamps() {
    let mut osc = osc();
    assert_eq!(get(&osc, 7), Some(0.0)); // default center
    set(&mut osc, 7, -0.5);
    assert_eq!(get(&osc, 7), Some(-0.5));
    set(&mut osc, 7, 5.0);
    assert_eq!(get(&osc, 7), Some(1.0)); // clamped to hard right
    set(&mut osc, 7, -5.0);
    assert_eq!(get(&osc, 7), Some(-1.0)); // clamped to hard left
}

#[test]
fn detune_round_trips_and_clamps_to_two_octaves() {
    let mut osc = osc();
    assert_eq!(get(&osc, 1), Some(0.0)); // default: no detune
    set(&mut osc, 1, 12.0);
    assert_eq!(get(&osc, 1), Some(12.0)); // an octave up
    set(&mut osc, 1, 100.0);
    assert_eq!(get(&osc, 1), Some(24.0)); // clamped to +2 octaves
    set(&mut osc, 1, -100.0);
    assert_eq!(get(&osc, 1), Some(-24.0)); // clamped to -2 octaves
}

#[test]
fn oscillator_defaults_are_the_named_numbers() {
    let osc = osc();
    assert_eq!(get(&osc, 3), Some(0.004));
    assert_eq!(get(&osc, 4), Some(0.1));
    assert_eq!(get(&osc, 5), Some(1.0));
    assert_eq!(get(&osc, 6), Some(0.012));
    let params = osc.parameters();
    assert_eq!((f(params[3].min), f(params[3].max)), (0.0, 10.0));
    assert_eq!((f(params[1].min), f(params[1].max)), (-24.0, 24.0));
    assert_eq!(f(params[0].max), 3.0);
    assert_eq!(osc.name(), "Oscillator");
    assert!(osc.is_instrument());
    assert_eq!((osc.audio_input_count(), osc.audio_output_count()), (0, 2));
    assert_eq!(f(osc.sample_rate()), SAMPLE_RATE);
}

#[test]
fn oscillator_refuses_what_it_does_not_have() {
    let mut osc = osc();
    assert_eq!(get(&osc, 8), None);
    match osc.set_parameter(8, b(0.0)) {
        Err(PluginError::NoParameter { index }) => assert_eq!(index, 8),
        other => panic!("{other:?}"),
    }
    assert!(osc.presets().is_empty());
    match osc.load_preset("lead") {
        Err(PluginError::NoPreset { id }) => assert_eq!(id, "lead"),
        other => panic!("{other:?}"),
    }
}

#[test]
fn voices_start_and_release() {
    let mut osc = osc();
    let events = vec![(0, [0x90, 60, 100]), (0, [0x90, 64, 100]), (5, [0x80, 60, 0])];
    assert_eq!(osc.hear(&events, 0, 0), 2);
    assert_eq!(osc.voices.len(), 2);
    assert_eq!(osc.voices[&60].state, VoiceState::Attack);
    assert_eq!(osc.hear(&events, 2, 4), 2);
    assert_eq!(osc.hear(&events, 2, 5), 3);
    assert_eq!(osc.voices[&60].state, VoiceState::Release);
    assert_eq!(osc.voices[&64].state, VoiceState::Attack);
    // A retrigger attacks from the level that is left.
    osc.voices.insert(
        60,
        Voice { phase: b(0.25), amp: b(0.5), state: VoiceState::Release },
    );
    osc.hear(&vec![(0, [0x90, 60, 1])], 0, 0);
    assert_eq!(osc.voices[&60].state, VoiceState::Attack);
    assert_eq!(f(osc.voices[&60].amp), 0.5);
    // A note-off by velocity, and one for a note that does not sound.
    osc.hear(&vec![(0, [0x91, 64, 0]), (0, [0x80, 10, 0])], 0, 0);
    assert_eq!(osc.voices[&64].state, VoiceState::Release);
    assert_eq!(osc.voices.len(), 2);
}

#[test]
fn voices_run_through_their_envelope() {
    let sustain = b(0.5);
    let v = Voice { phase: b(0.0), amp: b(0.0), state: VoiceState::Attack };
    let v = v.advance(b(0.9), sustain);
    assert_eq!((f(v.amp), v.state), (0.9, VoiceState::Attack));
    let v = v.advance(b(1.1), sustain);
    assert_eq!((f(v.amp), v.state), (1.0, VoiceState::Decay));
    let v = v.advance(b(0.7), sustain);
    assert_eq!((f(v.amp), v.state), (0.7, VoiceState::Decay));
    let v = v.advance(b(0.4), sustain);
    assert_eq!((f(v.amp), v.state), (0.5, VoiceState::Sustain));
    let v = v.advance(b(9.0), b(0.3));
    assert_eq!((f(v.amp), v.state), (0.3, VoiceState::Sustain));
    let v = Voice { state: VoiceState::Release, ..v };
    let v = v.advance(b(0.1), sustain);
    assert!(!v.finished());
    let v = v.advance(b(-0.1), sustain);
    assert_eq!(f(v.amp), 0.0);
    assert!(v.finished());
}

// -- reverb --

fn reverb() -> Reverb {
    let lines: Vec<usize> = (0..16).map(|i| 100 + i).collect();
    Reverb::new(b(SAMPLE_RATE), &lines, 50, vec![b(0.0); 16])
}

#[test]
fn presets_load_without_error() {
    let mut r = reverb();
    let presets = r.presets();
    assert_eq!(presets.len(), 5);
    for p in presets {
        r.load_preset(&p.id).expect(&p.id);
    }
    match r.load_preset("Arcadia Dream Hall") {
        Err(PluginError::NoPreset { id }) => assert_eq!(id, "Arcadia Dream Hall"),
        other => panic!("{other:?}"),
    }
}

#[test]
fn presets_hold_the_named_numbers() {
    let table = [
        ("arcadia", [0.94, 0.95, 0.30, 0.06, 0.78, 0.25, 0.70, 1.00, 80.0, 0.85]),
        ("cathedral", [0.96, 1.00, 0.55, 0.10, 0.72, 0.15, 0.55, 1.00, 60.0, 0.80]),
        ("plate", [0.80, 0.55, 0.25, 0.02, 0.78, 0.18, 0.30, 0.85, 120.0, 1.00]),
        ("room", [0.55, 0.40, 0.40, 0.01, 0.65, 0.40, 0.20, 0.90, 100.0, 1.00]),
        ("ambient", [0.96, 0.95, 0.20, 0.12, 0.78, 0.45, 0.85, 1.00, 100.0, 0.80f32]),
    ];
    let mut r = reverb();
    for (id, values) in table {
        r.load_preset(id).unwrap();
        for (i, value) in values.iter().enumerate() {
            assert_eq!(r.get_parameter(i as u32).map(f), Some(*value), "{id} {i}");
        }
    }
}

#[test]
fn parameters_clamp_and_roundtrip() {
    let mut r = reverb();
    let params = r.parameters();
    assert_eq!(params.len(), reverb::PARAM_COUNT);
    for (i, spec) in params.iter().enumerate() {
        let (min, max) = (f(spec.min), f(spec.max));
        r.set_parameter(i as u32, b(max + 1000.0)).unwrap();
        let v = r.get_parameter(i as u32).map(f).unwrap();
        assert!(v <= max + 1e-6, "param {} not clamped to max", spec.name);
        r.set_parameter(i as u32, b(min - 1000.0)).unwrap();
        let v = r.get_parameter(i as u32).map(f).unwrap();
        assert!(v >= min - 1e-6, "param {} not clamped to min", spec.name);
    }
}

#[test]
fn reverb_parameters_are_the_named_numbers() {
    let table = [
        ("decay", 0.1, 0.99, 0.88),
        ("size", 0.3, 1.0, 0.85),
        ("damping", 0.0, 1.0, 0.35),
        ("predelay", 0.0, 0.25, 0.04),
        ("diffusion", 0.0, 0.85, 0.70),
        ("mod_rate", 0.05, 2.0, 0.30),
        ("mod_depth", 0.0, 1.0, 0.50),
        ("width", 0.0, 1.0, 1.00),
        ("lowcut", 20.0, 500.0, 80.0),
        ("level", 0.0, 2.0, 1.00f32),
    ];
    let r = reverb();
    for (p, (name, min, max, default)) in r.parameters().iter().zip(table) {
        assert_eq!(p.name, name);
        assert_eq!((f(p.min), f(p.max), f(p.default)), (min, max, default));
        assert_eq!(r.get_parameter(p.index).map(f), Some(default));
    }
    assert_eq!(r.get_parameter(10), None);
    assert_eq!((r.name(), r.is_instrument()), ("Reverb", false));
    assert_eq!((r.audio_input_count(), r.audio_output_count()), (2, 2));
}

#[test]
fn delay_lines_give_back_what_was_written() {
    let mut line = DelayLine::new(4);
    for i in 1..=10 {
        line.write(b(i as f32));
    }
    assert_eq!(f(line.taps(1).0), 10.0);
    assert_eq!(f(line.taps(1).1), 9.0);
    assert_eq!(f(line.taps(3).0), 8.0);
    assert_eq!(f(line.taps(3).1), 7.0);
    assert_eq!(f(line.taps(0).0), 7.0);
    line.clear();
    assert_eq!(f(line.taps(1).0), 0.0);
    assert_eq!(DelayLine::new(0).buf.len(), 2);
}

#[test]
fn allpass_gives_back_the_oldest_sample() {
    let mut filter = Allpass::new(3);
    for i in 1..=4 {
        filter.store(b(i as f32));
    }
    assert_eq!(f(filter.delayed()), 2.0);
    filter.clear();
    assert_eq!(f(filter.delayed()), 0.0);
    assert_eq!(Allpass::new(0).buf.len(), 1);
}

#[test]
fn predelay_waits() {
    let mut r = reverb();
    assert_eq!(f(r.predelay(b(1.0), 2)), 0.0);
    assert_eq!(f(r.predelay(b(2.0), 2)), 0.0);
    assert_eq!(f(r.predelay(b(3.0), 2)), 1.0);
    assert_eq!(f(r.predelay(b(4.0), 0)), 4.0);
    // A delay that is too long is the longest there is.
    assert_eq!(f(r.predelay(b(5.0), 1000)), 0.0);
    r.load_preset("room").unwrap();
    assert_eq!(f(r.predelay(b(6.0), 1)), 0.0);
}

#[test]
fn a_large_jump_in_size_clears_the_damping() {
    let sizes: Vec<f32> = (0..=140)
        .map(|i| 0.3 + i as f32 * 0.005)
        .chain([0.7, 0.3f32.next_up(), 1.0f32.next_down(), 0.6, 0.59999996, 0.60000002, f32::NAN])
        .collect();
    for &from in &sizes {
        for &to in &sizes {
            let mut r = reverb();
            r.set_parameter(1, b(from)).unwrap();
            let from = f(r.size);
            r.damp_states[3] = b(0.5);
            r.set_parameter(1, b(to)).unwrap();
            let cleared = (from - f(r.size)).abs() > 0.4;
            assert_eq!(f(r.damp_states[3]), if cleared { 0.0 } else { 0.5 }, "{from} {to}");
        }
    }
    let mut r = reverb();
    r.damp_states[3] = b(0.5);
    r.set_parameter(0, b(0.1)).unwrap();
    assert_eq!(f(r.damp_states[3]), 0.5);
}
