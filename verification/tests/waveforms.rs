use tang::modulation::LfoWaveform;

#[test]
fn lfo_waveform_cycle() {
    assert_eq!(LfoWaveform::Sine.next(), LfoWaveform::Triangle);
    assert_eq!(LfoWaveform::Triangle.next(), LfoWaveform::Saw);
    assert_eq!(LfoWaveform::Saw.next(), LfoWaveform::Square);
    assert_eq!(LfoWaveform::Square.next(), LfoWaveform::Sine);
}

#[test]
fn lfo_waveform_from_str() {
    assert_eq!(LfoWaveform::from_str("sine"), Some(LfoWaveform::Sine));
    assert_eq!(LfoWaveform::from_str("TRIANGLE"), Some(LfoWaveform::Triangle));
    assert_eq!(LfoWaveform::from_str("tri"), Some(LfoWaveform::Triangle));
    assert_eq!(LfoWaveform::from_str("saw"), Some(LfoWaveform::Saw));
    assert_eq!(LfoWaveform::from_str("square"), Some(LfoWaveform::Square));
    assert_eq!(LfoWaveform::from_str("unknown"), None);
}
