use keysynth::effect::envelope::{Envelope, EnvelopeState};
use keysynth::fixed::ONE;

const K: i64 = 1_000_000_000;

fn attack_of(samples: u32) -> Envelope {
    Envelope {
        ticks: 0,
        state: EnvelopeState::Attack(0),
        last_val: 0,
        sustain: 500 * K,
        attack_samps: samples,
        decay_samps: 10,
        release_samps: 10,
    }
}

#[test]
fn envelope_runs_through_all_four_phases() {
    let mut env = Envelope::new(1000, 100 * K, 50 * K, 800 * K, 250 * K);
    assert_eq!(env.attack_samps, 100);
    assert_eq!(env.decay_samps, 50);
    assert_eq!(env.release_samps, 250);
    env.press();
    let mut last = 0;
    for _ in 0..100 {
        last = env.tick();
    }
    assert_eq!(last, ONE);
    for _ in 0..50 {
        last = env.tick();
    }
    assert_eq!(last, 800 * K);
    for _ in 0..10 {
        last = env.tick();
        assert_eq!(last, 800 * K);
    }
    env.release();
    for _ in 0..250 {
        last = env.tick();
    }
    assert_eq!(last, 0);
    assert_eq!(env.state, EnvelopeState::Idle);
}

#[test]
fn new_envelope_is_idle_and_silent() {
    let mut env = Envelope::new(48000, 50 * K, 100 * K, 200 * K, 600 * K);
    assert_eq!(env.state, EnvelopeState::Idle);
    assert_eq!(env.ticks, 0);
    assert_eq!(env.last_val, 0);
    assert_eq!(env.sustain, 200 * K);
    assert_eq!(env.attack_samps, 2400);
    assert_eq!(env.decay_samps, 4800);
    assert_eq!(env.release_samps, 28800);
    for _ in 0..5 {
        assert_eq!(env.tick(), 0);
        assert_eq!(env.state, EnvelopeState::Idle);
        assert_eq!(env.ticks, 0);
    }
}

#[test]
fn new_envelope_keeps_sustain_within_the_gains() {
    assert_eq!(Envelope::new(1000, 0, 0, 1500 * K, 0).sustain, ONE);
    assert_eq!(Envelope::new(1000, 0, 0, -5, 0).sustain, 0);
    assert_eq!(Envelope::new(1000, 0, 0, ONE, 0).sustain, ONE);
    assert_eq!(Envelope::new(1000, 0, 0, 0, 0).sustain, 0);
    assert_eq!(Envelope::new(1000, 0, 0, i64::MAX, 0).sustain, ONE);
    assert_eq!(Envelope::new(1000, 0, 0, i64::MIN, 0).sustain, 0);
}

#[test]
fn attack_from_zero_rises_strictly_to_one() {
    let mut env = Envelope::new(1000, 100 * K, 50 * K, 800 * K, 250 * K);
    env.press();
    assert_eq!(env.state, EnvelopeState::Attack(0));
    let mut previous = -1;
    for k in 1..=100 {
        let gain = env.tick();
        assert!(gain > previous);
        if k < 100 {
            assert_eq!(gain, 10 * K * k);
            assert_eq!(env.state, EnvelopeState::Attack(0));
        }
        previous = gain;
    }
    assert_eq!(previous, ONE);
    assert_eq!(env.state, EnvelopeState::Decay);
    assert_eq!(env.ticks, 0);
}

#[test]
fn attack_of_three_samples_emits_thirds() {
    let mut env = attack_of(3);
    assert_eq!(env.tick(), 333_333_333_333);
    assert_eq!(env.tick(), 666_666_666_666);
    assert_eq!(env.tick(), ONE);
    assert_eq!(env.state, EnvelopeState::Decay);
}

#[test]
fn attack_of_two_million_samples_rises_with_every_tick() {
    let mut env = attack_of(2_000_000);
    let mut previous = -1;
    for k in 1..=2_000_000i64 {
        let gain = env.tick();
        assert!(gain > previous);
        if k < 2_000_000 {
            assert_eq!(gain, 500_000 * k);
        }
        previous = gain;
    }
    assert_eq!(previous, ONE);
    assert_eq!(env.state, EnvelopeState::Decay);
}

#[test]
fn longest_attack_rises_with_every_tick() {
    let mut env = attack_of(u32::MAX);
    let mut previous = -1;
    for k in 1..=1_000_000i128 {
        let gain = env.tick();
        assert!(gain > previous);
        assert_eq!(gain as i128, k * 1_000_000_000_000 / (u32::MAX as i128));
        previous = gain;
    }
    env.ticks = u32::MAX - 3;
    assert_eq!(env.tick(), 999_999_999_534);
    assert_eq!(env.tick(), 999_999_999_767);
    assert_eq!(env.tick(), ONE);
    assert_eq!(env.state, EnvelopeState::Decay);
}

#[test]
fn decay_falls_to_the_sustain_level() {
    let mut env = Envelope::new(1000, 0, 50 * K, 800 * K, 0);
    env.state = EnvelopeState::Decay;
    env.last_val = ONE;
    let mut previous = ONE;
    for k in 1..=50 {
        let gain = env.tick();
        assert!(gain <= previous);
        assert!(gain >= 800 * K);
        if k < 50 {
            assert_eq!(gain, ONE - 4 * K * k);
            assert_eq!(env.state, EnvelopeState::Decay);
        }
        previous = gain;
    }
    assert_eq!(previous, 800 * K);
    assert_eq!(env.state, EnvelopeState::Sustain);
}

#[test]
fn decay_to_a_sustain_of_one_stays_at_one() {
    let mut env = Envelope::new(1000, 0, 20 * K, ONE, 0);
    env.state = EnvelopeState::Decay;
    env.last_val = ONE;
    for _ in 0..20 {
        assert_eq!(env.tick(), ONE);
    }
    assert_eq!(env.state, EnvelopeState::Sustain);
}

#[test]
fn sustain_holds_its_level() {
    let mut env = Envelope::new(1000, 0, 0, 654_321 * 1_000_000, 0);
    env.state = EnvelopeState::Sustain;
    for _ in 0..10_000 {
        assert_eq!(env.tick(), 654_321 * 1_000_000);
        assert_eq!(env.state, EnvelopeState::Sustain);
        assert_eq!(env.ticks, 0);
    }
}

#[test]
fn release_falls_to_zero() {
    let mut env = Envelope::new(1000, 0, 0, 800 * K, 250 * K);
    env.state = EnvelopeState::Sustain;
    assert_eq!(env.tick(), 800 * K);
    env.release();
    assert_eq!(env.state, EnvelopeState::Release(800 * K));
    let mut previous = 800 * K;
    for k in 1..=250 {
        let gain = env.tick();
        assert!(gain <= previous);
        if k < 250 {
            assert_eq!(gain, 800 * K - 3_200_000_000 * k);
        }
        previous = gain;
    }
    assert_eq!(previous, 0);
    assert_eq!(env.state, EnvelopeState::Idle);
    assert_eq!(env.tick(), 0);
}

#[test]
fn release_from_zero_ends_on_the_next_tick() {
    let mut env = Envelope::new(1000, 100 * K, 50 * K, 800 * K, 250 * K);
    env.release();
    assert_eq!(env.state, EnvelopeState::Release(0));
    assert_eq!(env.tick(), 0);
    assert_eq!(env.state, EnvelopeState::Idle);

    let mut long = Envelope::new(48000, 0, 0, 0, 60 * ONE);
    assert_eq!(long.release_samps, 2_880_000);
    long.release();
    assert_eq!(long.tick(), 0);
    assert_eq!(long.state, EnvelopeState::Idle);
}

#[test]
fn press_in_the_middle_of_a_decay_continues_from_the_gain() {
    let mut env = Envelope::new(1000, 100 * K, 50 * K, 800 * K, 250 * K);
    env.press();
    for _ in 0..125 {
        env.tick();
    }
    assert_eq!(env.state, EnvelopeState::Decay);
    let level = env.last_val;
    assert_eq!(level, 900 * K);
    env.press();
    assert_eq!(env.state, EnvelopeState::Attack(900 * K));
    assert_eq!(env.ticks, 0);
    let next = env.tick();
    assert_eq!(next - level, (ONE - level) / 100);
    assert_eq!(next, 901 * K);
}

#[test]
fn press_in_the_middle_of_a_release_continues_from_the_gain() {
    let mut env = Envelope::new(1000, 100 * K, 50 * K, 800 * K, 250 * K);
    env.press();
    for _ in 0..160 {
        env.tick();
    }
    env.release();
    for _ in 0..100 {
        env.tick();
    }
    let level = env.last_val;
    assert_eq!(level, 480 * K);
    env.press();
    assert_eq!(env.state, EnvelopeState::Attack(480 * K));
    let next = env.tick();
    assert_eq!(next, 485_200_000_000);
    assert_eq!(next - level, (ONE - level) / 100);
    for _ in 0..98 {
        env.tick();
    }
    assert_eq!(env.tick(), ONE);
    assert_eq!(env.state, EnvelopeState::Decay);
}

#[test]
fn release_in_the_middle_of_an_attack_continues_from_the_gain() {
    let mut env = Envelope::new(1000, 100 * K, 50 * K, 800 * K, 250 * K);
    env.press();
    for _ in 0..40 {
        env.tick();
    }
    assert_eq!(env.last_val, 400 * K);
    env.release();
    assert_eq!(env.state, EnvelopeState::Release(400 * K));
    assert_eq!(env.tick(), 398_400_000_000);
}

#[test]
fn press_while_attacking_restarts_the_ramp_from_the_gain() {
    let mut env = Envelope::new(1000, 100 * K, 50 * K, 800 * K, 250 * K);
    env.press();
    for _ in 0..50 {
        env.tick();
    }
    env.press();
    assert_eq!(env.state, EnvelopeState::Attack(500 * K));
    assert_eq!(env.tick(), 505 * K);
}

#[test]
fn ramps_of_no_length_end_on_the_next_tick() {
    let mut env = Envelope::new(1000, 0, 0, 300 * K, 0);
    assert_eq!(env.attack_samps, 0);
    assert_eq!(env.decay_samps, 0);
    assert_eq!(env.release_samps, 0);
    env.press();
    assert_eq!(env.tick(), ONE);
    assert_eq!(env.state, EnvelopeState::Decay);
    assert_eq!(env.tick(), 300 * K);
    assert_eq!(env.state, EnvelopeState::Sustain);
    assert_eq!(env.tick(), 300 * K);
    env.release();
    assert_eq!(env.tick(), 0);
    assert_eq!(env.state, EnvelopeState::Idle);
}

#[test]
fn ramps_of_one_sample_end_on_the_next_tick() {
    let mut env = Envelope::new(1000, K, K, 300 * K, K);
    assert_eq!(env.attack_samps, 1);
    env.press();
    assert_eq!(env.tick(), ONE);
    assert_eq!(env.tick(), 300 * K);
    env.release();
    assert_eq!(env.tick(), 0);
    assert_eq!(env.state, EnvelopeState::Idle);
}
