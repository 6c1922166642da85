use keysynth::effect::envelope::EnvelopeState;
use keysynth::fixed::{product, Sample, ONE};
use keysynth::nodes::osc::{advance, phase_step, waveform, CONCERT_PITCH};
use keysynth::nodes::{
    into_input, AnyInput, AnyInputMut, AnyNode, Envelope, Input, InputSlot, Node, Oscillator,
    Wave, WiringError,
};
use keysynth::waveform::sine;

const K: i64 = 1_000_000_000;
const HZ: i64 = ONE;

fn running(freq: Sample, amp: Sample, wave: Wave) -> Oscillator {
    Oscillator {
        rate: 48000,
        pos: 0,
        run: true,
        freq: Input::Value(freq),
        amp: Input::Value(amp),
        wave: Input::Value(wave),
    }
}

fn boxed(osc: Oscillator) -> Input<Sample> {
    Input::Node(Box::new(AnyNode::Oscillator(osc)))
}

#[test]
fn new_oscillator_stands_still_at_concert_pitch() {
    let osc = Oscillator::new(48000);
    assert_eq!(
        *osc,
        Oscillator {
            rate: 48000,
            pos: 0,
            run: false,
            freq: Input::Value(440 * HZ),
            amp: Input::Value(ONE),
            wave: Input::Value(Wave::Sine),
        }
    );
    assert_eq!(CONCERT_PITCH, 440 * HZ);
}

#[test]
fn phase_step_is_the_share_of_a_turn_per_sample() {
    assert_eq!(phase_step(440 * HZ, 48000), 39_370_533);
    assert_eq!(phase_step(110 * HZ, 48000), 9_842_633);
    assert_eq!(phase_step(12_000 * HZ, 48000), 0x4000_0000);
    assert_eq!(phase_step(0, 48000), 0);
    assert_eq!(phase_step(1, 48000), 0);
    assert_eq!(phase_step(5, 0), 0);
}

#[test]
fn phase_step_wraps_at_a_full_turn() {
    assert_eq!(phase_step(48_000 * HZ, 48000), 0);
    assert_eq!(phase_step(72_000 * HZ, 48000), 0x8000_0000);
    assert_eq!(phase_step(i64::MAX, 1), 158_290_056);
}

#[test]
fn phase_step_of_a_negative_frequency_turns_backwards() {
    assert_eq!(phase_step(-440 * HZ, 48000), 4_255_596_762);
    assert_eq!(phase_step(-110 * HZ, 48000), 4_285_124_662);
    assert_eq!(phase_step(-1, 48000), u32::MAX);
    assert_eq!(phase_step(-12_000 * HZ, 48000), 0xc000_0000);
    assert_eq!(phase_step(-48_000 * HZ, 48000), 0);
    assert_eq!(phase_step(i64::MIN, 1), 4_136_677_239);
}

#[test]
fn advance_moves_a_running_phase_only() {
    assert_eq!(advance(0, true, 440 * HZ, 48000), 39_370_533);
    assert_eq!(advance(77, false, 440 * HZ, 48000), 77);
    assert_eq!(advance(u32::MAX, true, 12_000 * HZ, 48000), 0x3fff_ffff);
    assert_eq!(advance(5, true, -1, 48000), 4);
}

#[test]
fn oscillator_phase_wraps_after_a_full_turn() {
    let mut osc = Oscillator::new(48000);
    osc.press();
    let mut turns: u64 = 0;
    for k in 1..=110u64 {
        osc.tick();
        turns = k * 39_370_533;
        assert_eq!(osc.pos as u64, turns % 4_294_967_296);
    }
    assert!(turns >= 4_294_967_296);
    assert_eq!(osc.pos, 35_791_334);
    for k in 111..=5000u64 {
        osc.tick();
        assert_eq!(osc.pos as u64, (k * 39_370_533) % 4_294_967_296);
    }
}

#[test]
fn oscillator_emits_the_sine_at_its_phase() {
    let mut osc = Oscillator::new(48000);
    osc.press();
    assert_eq!(osc.tick(), 57_564_026_161);
    assert_eq!(osc.tick(), 114_937_148_904);
    assert_eq!(osc.tick(), 171_929_097_915);
    assert_eq!(osc.tick(), 228_350_866_996);
    for _ in 0..1000 {
        let out = osc.tick();
        assert_eq!(out, sine(osc.pos));
        let exact = (2.0 * std::f64::consts::PI * (osc.pos as f64) / 4_294_967_296.0).sin();
        assert!((out as f64 / ONE as f64 - exact).abs() < 0.000_000_001);
    }
}

#[test]
fn oscillator_that_does_not_run_holds_its_phase() {
    let mut osc = Oscillator::new(48000);
    for _ in 0..10 {
        assert_eq!(osc.tick(), 0);
        assert_eq!(osc.pos, 0);
    }
    osc.press();
    osc.tick();
    osc.tick();
    osc.release();
    assert!(!osc.run);
    for _ in 0..10 {
        assert_eq!(osc.tick(), 114_937_148_904);
        assert_eq!(osc.pos, 78_741_066);
    }
}

#[test]
fn oscillator_scales_by_its_amplitude() {
    let mut osc = running(440 * HZ, 500 * K, Wave::Sine);
    assert_eq!(osc.tick(), 28_782_013_080);
    assert_eq!(osc.tick(), 57_468_574_452);
    assert_eq!(osc.tick(), 85_964_548_957);
    let mut loud = running(440 * HZ, 3 * ONE, Wave::Sine);
    assert_eq!(loud.tick(), 172_692_078_483);
    let mut flipped = running(440 * HZ, -ONE, Wave::Sine);
    assert_eq!(flipped.tick(), -57_564_026_161);
}

#[test]
fn oscillator_emits_the_selected_waveform() {
    let mut saw = running(440 * HZ, ONE, Wave::Saw);
    assert_eq!(
        [saw.tick(), saw.tick(), saw.tick(), saw.tick()],
        [968_864_235_390, 795_753_406_533, 965_306_244_496, 917_910_025_355]
    );
    let mut square = running(440 * HZ, ONE, Wave::Square);
    assert_eq!(
        [square.tick(), square.tick(), square.tick(), square.tick()],
        [981_865_989_567, 827_332_794_301, 1_004_363_275_642, 980_965_682_853]
    );
    let mut triangle = running(440 * HZ, ONE, Wave::Triangle);
    assert_eq!(
        [triangle.tick(), triangle.tick(), triangle.tick(), triangle.tick()],
        [12_354_962_242, 24_412_825_836, 36_300_731_273, 47_304_567_296]
    );
}

#[test]
fn waveform_selects_by_shape() {
    let phase = 0x1234_5678;
    assert_eq!(waveform(Wave::Sine, phase, 54), 432_085_748_004);
    assert_eq!(waveform(Wave::Saw, phase, 54), 1_099_540_561_046);
    assert_eq!(waveform(Wave::Square, phase, 54), 1_225_466_356_191);
    assert_eq!(waveform(Wave::Triangle, phase, 54), 80_971_481_258);
}

#[test]
fn oscillator_frequency_can_be_driven_by_a_node() {
    let lfo = running(1000 * HZ, 100 * HZ, Wave::Sine);
    let mut carrier = Oscillator {
        rate: 48000,
        pos: 0,
        run: true,
        freq: boxed(lfo),
        amp: Input::Value(ONE),
        wave: Input::Value(Wave::Sine),
    };
    let mut outs = Vec::new();
    let mut phases = Vec::new();
    for _ in 0..6 {
        outs.push(carrier.tick());
        phases.push(carrier.pos);
    }
    assert_eq!(
        outs,
        vec![
            1_708_582_155,
            5_096_493_404,
            10_105_657_300,
            16_650_044_224,
            24_616_995_022,
            33_869_008_985
        ]
    );
    assert_eq!(phases, vec![1_167_928, 3_483_801, 6_907_994, 11_381_918, 16_829_023, 23_156_107]);
    match &carrier.freq {
        Input::Node(node) => match &**node {
            AnyNode::Oscillator(lfo) => assert_eq!(lfo.pos, 536_870_910),
            _ => panic!("the frequency input is an oscillator"),
        },
        _ => panic!("the frequency input is a node"),
    }
}

#[test]
fn constant_input_yields_its_value_and_stays() {
    let mut input: Input<Sample> = Input::Value(123_456);
    for _ in 0..3 {
        assert_eq!(input.value(), 123_456);
        assert_eq!(input, Input::Value(123_456));
    }
    let mut shape: Input<Wave> = Input::Value(Wave::Triangle);
    assert_eq!(shape.value(), Wave::Triangle);
    assert_eq!(shape, Input::Value(Wave::Triangle));
}

#[test]
fn node_input_ticks_its_node_once_per_value() {
    let mut input = boxed(running(440 * HZ, ONE, Wave::Sine));
    assert_eq!(input.value(), 57_564_026_161);
    assert_eq!(input.value(), 114_937_148_904);
    match &input {
        Input::Node(node) => match &**node {
            AnyNode::Oscillator(osc) => assert_eq!(osc.pos, 78_741_066),
            _ => panic!("the input is an oscillator"),
        },
        _ => panic!("the input is a node"),
    }
}

#[test]
fn into_input_takes_the_matching_kind() {
    assert_eq!(
        into_input::<Sample>(AnyInput::Signal(Input::Value(5))),
        Ok(Input::Value(5))
    );
    assert_eq!(
        into_input::<Wave>(AnyInput::Wave(Input::Value(Wave::Saw))),
        Ok(Input::Value(Wave::Saw))
    );
    assert_eq!(
        into_input::<Sample>(AnyInput::Signal(boxed(running(1, 2, Wave::Saw)))),
        Ok(boxed(running(1, 2, Wave::Saw)))
    );
}

#[test]
fn into_input_refuses_the_other_kind() {
    assert_eq!(
        into_input::<Sample>(AnyInput::Wave(Input::Value(Wave::Saw))),
        Err(WiringError::TypeMismatch)
    );
    assert_eq!(
        into_input::<Wave>(AnyInput::Signal(Input::Value(5))),
        Err(WiringError::TypeMismatch)
    );
}

#[test]
fn set_input_hands_back_the_previous_input() {
    let mut osc = Oscillator::new(48000);
    assert_eq!(
        osc.set_input(AnyInput::Signal(Input::Value(110 * HZ)), InputSlot::Frequency),
        Ok(AnyInput::Signal(Input::Value(440 * HZ)))
    );
    assert_eq!(osc.freq, Input::Value(110 * HZ));
    assert_eq!(
        osc.set_input(AnyInput::Signal(Input::Value(250 * K)), InputSlot::Amplitude),
        Ok(AnyInput::Signal(Input::Value(ONE)))
    );
    assert_eq!(osc.amp, Input::Value(250 * K));
    assert_eq!(
        osc.set_input(AnyInput::Wave(Input::Value(Wave::Square)), InputSlot::Wave),
        Ok(AnyInput::Wave(Input::Value(Wave::Sine)))
    );
    assert_eq!(osc.wave, Input::Value(Wave::Square));
    assert_eq!(
        osc.set_input(AnyInput::Signal(boxed(running(5, 6, Wave::Saw))), InputSlot::Frequency),
        Ok(AnyInput::Signal(Input::Value(110 * HZ)))
    );
    assert_eq!(
        osc.set_input(AnyInput::Signal(Input::Value(1)), InputSlot::Frequency),
        Ok(AnyInput::Signal(boxed(running(5, 6, Wave::Saw))))
    );
}

#[test]
fn set_input_on_an_unknown_slot_changes_nothing() {
    let mut osc = Oscillator::new(48000);
    assert_eq!(
        osc.set_input(AnyInput::Signal(Input::Value(5)), InputSlot::Input),
        Err(WiringError::UnknownSlot)
    );
    assert_eq!(
        osc.set_input(AnyInput::Wave(Input::Value(Wave::Saw)), InputSlot::Input),
        Err(WiringError::UnknownSlot)
    );
    assert_eq!(*osc, *Oscillator::new(48000));

    let mut env = Envelope::new(1000, 100 * K, 50 * K, 800 * K, 250 * K);
    for slot in [InputSlot::Wave, InputSlot::Frequency, InputSlot::Amplitude] {
        assert_eq!(
            env.set_input(AnyInput::Signal(Input::Value(5)), slot),
            Err(WiringError::UnknownSlot)
        );
        assert_eq!(
            env.set_input(AnyInput::Wave(Input::Value(Wave::Saw)), slot),
            Err(WiringError::UnknownSlot)
        );
    }
    assert_eq!(*env, *Envelope::new(1000, 100 * K, 50 * K, 800 * K, 250 * K));
}

#[test]
fn set_input_of_the_wrong_kind_changes_nothing() {
    let mut osc = Oscillator::new(48000);
    assert_eq!(
        osc.set_input(AnyInput::Wave(Input::Value(Wave::Saw)), InputSlot::Frequency),
        Err(WiringError::TypeMismatch)
    );
    assert_eq!(
        osc.set_input(AnyInput::Wave(Input::Value(Wave::Saw)), InputSlot::Amplitude),
        Err(WiringError::TypeMismatch)
    );
    assert_eq!(
        osc.set_input(AnyInput::Signal(Input::Value(5)), InputSlot::Wave),
        Err(WiringError::TypeMismatch)
    );
    assert_eq!(*osc, *Oscillator::new(48000));

    let mut env = Envelope::new(1000, 100 * K, 50 * K, 800 * K, 250 * K);
    assert_eq!(
        env.set_input(AnyInput::Wave(Input::Value(Wave::Saw)), InputSlot::Input),
        Err(WiringError::TypeMismatch)
    );
    assert_eq!(*env, *Envelope::new(1000, 100 * K, 50 * K, 800 * K, 250 * K));
}

#[test]
fn waveform_slot_refuses_a_node() {
    let mut osc = Oscillator::new(48000);
    let driven: Input<Wave> = Input::Node(Box::new(AnyNode::Oscillator(running(1, 2, Wave::Saw))));
    assert_eq!(
        osc.set_input(AnyInput::Wave(driven), InputSlot::Wave),
        Err(WiringError::TypeMismatch)
    );
    assert_eq!(*osc, *Oscillator::new(48000));
}

#[test]
fn get_input_borrows_the_slot() {
    let mut osc = Oscillator::new(48000);
    match osc.get_input(InputSlot::Frequency) {
        Ok(AnyInputMut::Signal(freq)) => {
            assert_eq!(*freq, Input::Value(440 * HZ));
            *freq = Input::Value(220 * HZ);
        }
        _ => panic!("the frequency slot takes a signal"),
    }
    assert_eq!(osc.freq, Input::Value(220 * HZ));
    match osc.get_input(InputSlot::Amplitude) {
        Ok(AnyInputMut::Signal(amp)) => assert_eq!(*amp, Input::Value(ONE)),
        _ => panic!("the amplitude slot takes a signal"),
    }
    match osc.get_input(InputSlot::Wave) {
        Ok(AnyInputMut::Wave(wave)) => {
            assert_eq!(*wave, Input::Value(Wave::Sine));
            *wave = Input::Value(Wave::Saw);
        }
        _ => panic!("the waveform slot takes a waveform"),
    }
    assert_eq!(osc.wave, Input::Value(Wave::Saw));
    let mut env = Envelope::new(1000, 100 * K, 50 * K, 800 * K, 250 * K);
    match env.get_input(InputSlot::Input) {
        Ok(AnyInputMut::Signal(input)) => assert_eq!(*input, Input::Value(0)),
        _ => panic!("the input slot takes a signal"),
    }
}

#[test]
fn get_input_on_an_unknown_slot_is_an_error() {
    let mut osc = Oscillator::new(48000);
    assert!(matches!(osc.get_input(InputSlot::Input), Err(WiringError::UnknownSlot)));
    let mut env = Envelope::new(1000, 100 * K, 50 * K, 800 * K, 250 * K);
    for slot in [InputSlot::Wave, InputSlot::Frequency, InputSlot::Amplitude] {
        assert!(matches!(env.get_input(slot), Err(WiringError::UnknownSlot)));
    }
    assert_eq!(*osc, *Oscillator::new(48000));
}

#[test]
fn any_node_passes_wiring_on_to_its_node() {
    let mut node = AnyNode::Oscillator(running(1, 2, Wave::Saw));
    assert_eq!(
        node.set_input(AnyInput::Signal(Input::Value(9)), InputSlot::Amplitude),
        Ok(AnyInput::Signal(Input::Value(2)))
    );
    assert_eq!(
        node.set_input(AnyInput::Signal(Input::Value(9)), InputSlot::Input),
        Err(WiringError::UnknownSlot)
    );
    assert_eq!(node, AnyNode::Oscillator(running(1, 9, Wave::Saw)));
    assert!(matches!(node.get_input(InputSlot::Wave), Ok(AnyInputMut::Wave(_))));
}

#[test]
fn new_envelope_node_is_idle_over_a_silent_input() {
    let env = Envelope::new(48000, 50 * K, 100 * K, 200 * K, 600 * K);
    assert_eq!(env.input, Input::Value(0));
    assert_eq!(env.adsr.state, EnvelopeState::Idle);
    assert_eq!(env.adsr.sustain, 200 * K);
    assert_eq!(env.adsr.attack_samps, 2400);
    assert_eq!(env.adsr.decay_samps, 4800);
    assert_eq!(env.adsr.release_samps, 28800);
}

#[test]
fn envelope_node_multiplies_its_input_by_its_gain() {
    let mut env = Envelope::new(1000, 100 * K, 50 * K, 800 * K, 250 * K);
    assert_eq!(
        env.set_input(AnyInput::Signal(Input::Value(500 * K)), InputSlot::Input),
        Ok(AnyInput::Signal(Input::Value(0)))
    );
    assert_eq!(env.tick(), 0);
    env.press();
    assert_eq!(env.tick(), 5 * K);
    assert_eq!(env.tick(), 10 * K);
    assert_eq!(env.tick(), 15 * K);
    for _ in 3..99 {
        env.tick();
    }
    assert_eq!(env.tick(), 500 * K);
    for _ in 0..49 {
        env.tick();
    }
    assert_eq!(env.tick(), 400 * K);
    assert_eq!(env.adsr.state, EnvelopeState::Sustain);
    assert_eq!(env.tick(), 400 * K);
    assert_eq!(env.tick(), product(500 * K, 800 * K));
}

#[test]
fn envelope_node_over_an_oscillator_fades_the_wave_in() {
    let mut osc = Oscillator::new(48000);
    osc.set_input(AnyInput::Signal(Input::Value(110 * HZ)), InputSlot::Frequency).unwrap();
    let mut voice = Envelope::new(48000, 50 * K, 100 * K, 200 * K, 600 * K);
    voice.set_input(AnyInput::Signal(boxed(*osc)), InputSlot::Input).unwrap();
    voice.press();
    assert_eq!(
        [voice.tick(), voice.tick(), voice.tick(), voice.tick(), voice.tick()],
        [5_999_361, 23_994_959, 53_979_330, 95_940_041, 149_859_688]
    );
}

#[test]
fn press_reaches_the_node_behind_the_envelope() {
    let mut voice = Envelope::new(48000, 50 * K, 100 * K, 200 * K, 600 * K);
    voice.set_input(AnyInput::Signal(boxed(*Oscillator::new(48000))), InputSlot::Input).unwrap();
    voice.press();
    assert_eq!(voice.adsr.state, EnvelopeState::Attack(0));
    match &voice.input {
        Input::Node(node) => match &**node {
            AnyNode::Oscillator(osc) => assert!(osc.run),
            _ => panic!("the input is an oscillator"),
        },
        _ => panic!("the input is a node"),
    }
}

#[test]
fn release_leaves_the_node_behind_the_envelope_running() {
    let mut voice = Envelope::new(48000, 50 * K, 100 * K, 200 * K, 600 * K);
    voice.set_input(AnyInput::Signal(boxed(*Oscillator::new(48000))), InputSlot::Input).unwrap();
    voice.press();
    voice.tick();
    voice.release();
    assert_eq!(voice.adsr.state, EnvelopeState::Release(416_666_666));
    voice.tick();
    match &voice.input {
        Input::Node(node) => match &**node {
            AnyNode::Oscillator(osc) => {
                assert!(osc.run);
                assert_eq!(osc.pos, 2 * 39_370_533);
            }
            _ => panic!("the input is an oscillator"),
        },
        _ => panic!("the input is a node"),
    }
}

#[test]
fn idle_envelope_stops_the_node_behind_it() {
    let mut voice = Envelope::new(48000, 50 * K, 100 * K, 200 * K, 600 * K);
    voice.set_input(
        AnyInput::Signal(boxed(running(440 * HZ, ONE, Wave::Sine))),
        InputSlot::Input,
    )
    .unwrap();
    assert_eq!(voice.tick(), 0);
    match &voice.input {
        Input::Node(node) => match &**node {
            AnyNode::Oscillator(osc) => {
                assert!(!osc.run);
                assert_eq!(osc.pos, 0);
            }
            _ => panic!("the input is an oscillator"),
        },
        _ => panic!("the input is a node"),
    }
}

#[test]
fn oscillator_near_the_crest_is_within_a_millionth_of_the_sine() {
    let mut osc = Oscillator::new(512);
    osc.set_input(AnyInput::Signal(Input::Value(127_750 * K)), InputSlot::Frequency).unwrap();
    osc.press();
    let out = osc.tick();
    assert_eq!(osc.pos, 0x3fe0_0000);
    assert_eq!(out, 999_995_293_803);
    assert!((out as f64 / ONE as f64 - 0.999_995_293_809).abs() < 0.000_001);
}
