//! The oscillator: a phase that turns at a frequency, read through a waveform.

use super::{
    into_input, node_height, node_input, node_out, node_press, node_release, node_replace,
    node_run, node_tick, node_wf, spec_advance, spec_phase_step, spec_waveform, wave_of, AnyInput,
    AnyInputMut, AnyNode, Input, InputSlot, Node, Wave, WiringError,
};
use crate::fixed::{product, spec_product, Sample, ONE};
use crate::waveform::{max_harmonic, saw, sine, spec_max_harmonic, square, triangle, TURN};
use vstd::prelude::*;

verus! {

/// The frequency that a new oscillator is set to: 440 hertz.
pub const CONCERT_PITCH: Sample = 440_000_000_000_000;

/// An oscillator. Its frequency, its amplitude and its waveform are inputs,
/// evaluated on every tick.
#[derive(Debug, PartialEq, Eq)]
pub struct Oscillator {
    /// Samples per second.
    pub rate: u32,
    /// The phase, in 2^-32 turns.
    pub pos: u32,
    /// Whether the phase moves.
    pub run: bool,
    pub freq: Input<Sample>,
    pub amp: Input<Sample>,
    pub wave: Input<Wave>,
}

/// Rounding a negative quotient down is rounding the positive one up.
proof fn lemma_floor_of_negative(x: int, d: int)
    requires
        x >= 0,
        d > 0,
    ensures
        (-x) / d == -((x + d - 1) / d),
{
    let c = (x + d - 1) / d;
    assert(c * d <= x + d - 1 < c * d + d) by (nonlinear_arith)
        requires
            c == (x + d - 1) / d,
            d > 0,
    ;
    assert((-x) / d == -c) by (nonlinear_arith)
        requires
            c * d <= x + d - 1 < c * d + d,
            d > 0,
    {
        assert(-x == (-c) * d + (c * d - x));
        assert(0 <= c * d - x < d);
    }
}

/// The remainder of a negative number counts back from the divisor.
proof fn lemma_mod_of_negative(c: int, t: int)
    requires
        c >= 0,
        t > 0,
    ensures
        (-c) % t == if c % t == 0 {
            0
        } else {
            t - c % t
        },
{
    let q = c / t;
    let m = c % t;
    assert(c == q * t + m && 0 <= m < t) by (nonlinear_arith)
        requires
            q == c / t,
            m == c % t,
            t > 0,
    ;
    if m == 0 {
        assert((-c) % t == 0) by (nonlinear_arith)
            requires
                c == q * t,
                t > 0,
        {
            assert(-c == (-q) * t);
        }
    } else {
        assert((-c) % t == t - m) by (nonlinear_arith)
            requires
                c == q * t + m,
                0 < m < t,
        {
            assert(-c == (-q - 1) * t + (t - m));
        }
    }
}

/// The change of phase in one sample.
pub fn phase_step(freq: Sample, rate: u32) -> (r: u32)
    ensures
        r == spec_phase_step(freq, rate),
{
    if rate == 0 {
        return 0;
    }
    assert(0 < rate * ONE <= 0xffff_ffff * 1_000_000_000_000) by (nonlinear_arith)
        requires
            0 < rate <= 0xffff_ffff,
            ONE == 1_000_000_000_000,
    ;
    let den: u128 = (rate as u128) * (ONE as u128);
    if freq >= 0 {
        assert(0 <= freq * TURN <= 0x7fff_ffff_ffff_ffff * 0x1_0000_0000) by (nonlinear_arith)
            requires
                0 <= freq <= 0x7fff_ffff_ffff_ffff,
                TURN == 0x1_0000_0000,
        ;
        let num: u128 = (freq as u128) * (TURN as u128);
        ((num / den) % (TURN as u128)) as u32
    } else {
        let size: u128 = (-(freq as i128)) as u128;
        assert(0 <= size * TURN <= 0x8000_0000_0000_0000 * 0x1_0000_0000) by (nonlinear_arith)
            requires
                0 <= size <= 0x8000_0000_0000_0000,
                TURN == 0x1_0000_0000,
        ;
        let num: u128 = size * (TURN as u128);
        let up: u128 = (num + den - 1) / den;
        let m: u128 = up % (TURN as u128);
        proof {
            assert(freq * TURN == -(size * TURN)) by (nonlinear_arith)
                requires
                    freq == -size,
            ;
            lemma_floor_of_negative(num as int, den as int);
            lemma_mod_of_negative(up as int, TURN as int);
        }
        if m == 0 {
            0
        } else {
            (TURN as u128 - m) as u32
        }
    }
}

/// The phase after one sample.
pub fn advance(pos: u32, run: bool, freq: Sample, rate: u32) -> (r: u32)
    ensures
        r == spec_advance(pos, run, freq, rate),
{
    if run {
        ((pos as u64 + phase_step(freq, rate) as u64) % TURN) as u32
    } else {
        pos
    }
}

/// The wave of a shape at a phase.
pub fn waveform(wave: Wave, phase: u32, max_harmonic: u64) -> (r: Sample)
    ensures
        r == spec_waveform(wave, phase, max_harmonic),
{
    match wave {
        Wave::Sine => sine(phase),
        Wave::Saw => saw(phase, false, max_harmonic),
        Wave::Square => square(phase, max_harmonic),
        Wave::Triangle => triangle(phase, max_harmonic),
    }
}

impl Oscillator {
    /// An oscillator for `rate` samples per second that stands still at phase
    /// zero: a sine of 440 hertz at full amplitude once it runs.
    pub fn new(rate: u32) -> (r: Box<Self>)
        ensures
            *r == (Oscillator {
                rate,
                pos: 0,
                run: false,
                freq: Input::Value(CONCERT_PITCH),
                amp: Input::Value(ONE),
                wave: Input::Value(Wave::Sine),
            }),
            r.wf(),
    {
        let obj = Oscillator {
            rate,
            pos: 0,
            run: false,
            amp: Input::Value(ONE),
            freq: Input::Value(CONCERT_PITCH),
            wave: Input::Value(Wave::Sine),
        };
        Box::new(obj)
    }

    /// The sample at the current phase, for the frequency and the amplitude
    /// that were read on this tick.
    fn synthesize(&mut self, freq: Sample, amp: Sample) -> (r: Sample)
        requires
            old(self).wave.wf(),
        ensures
            r == spec_product(
                spec_waveform(
                    wave_of(old(self).wave),
                    old(self).pos,
                    spec_max_harmonic(old(self).rate, freq),
                ),
                amp,
            ),
            *final(self) == *old(self),
    {
        let max_harmonic = max_harmonic(self.rate, freq);
        let sample = waveform(self.wave.value(), self.pos, max_harmonic);
        product(sample, amp)
    }
}

impl Node<Sample> for Oscillator {
    open spec fn wf(&self) -> bool {
        node_wf(AnyNode::Oscillator(*self))
    }

    open spec fn out(&self) -> Sample {
        node_out(AnyNode::Oscillator(*self))
    }

    open spec fn ticked(&self) -> Self {
        node_tick(AnyNode::Oscillator(*self))->Oscillator_0
    }

    open spec fn pressed(&self) -> Self {
        node_press(AnyNode::Oscillator(*self))->Oscillator_0
    }

    open spec fn released(&self) -> Self {
        node_release(AnyNode::Oscillator(*self))->Oscillator_0
    }

    open spec fn input(&self, slot: InputSlot) -> Option<AnyInput> {
        node_input(AnyNode::Oscillator(*self), slot)
    }

    open spec fn replaced(&self, slot: InputSlot, input: AnyInput) -> Self {
        node_replace(AnyNode::Oscillator(*self), slot, input)->Oscillator_0
    }

    fn set_input(&mut self, input: AnyInput, slot: InputSlot) -> (r: Result<
        AnyInput,
        WiringError,
    >) {
        match slot {
            InputSlot::Amplitude => match into_input::<Sample>(input) {
                Ok(signal) => {
                    let mut signal = signal;
                    std::mem::swap(&mut self.amp, &mut signal);
                    Ok(AnyInput::Signal(signal))
                },
                Err(e) => Err(e),
            },
            InputSlot::Frequency => match into_input::<Sample>(input) {
                Ok(signal) => {
                    let mut signal = signal;
                    std::mem::swap(&mut self.freq, &mut signal);
                    Ok(AnyInput::Signal(signal))
                },
                Err(e) => Err(e),
            },
            InputSlot::Wave => match into_input::<Wave>(input) {
                Ok(Input::Value(wave)) => {
                    let mut shape = Input::Value(wave);
                    std::mem::swap(&mut self.wave, &mut shape);
                    Ok(AnyInput::Wave(shape))
                },
                Ok(Input::Node(_)) => Err(WiringError::TypeMismatch),
                Err(e) => Err(e),
            },
            InputSlot::Input => Err(WiringError::UnknownSlot),
        }
    }

    fn get_input(&mut self, slot: InputSlot) -> (r: Result<AnyInputMut<'_>, WiringError>) {
        match slot {
            InputSlot::Amplitude => Ok(AnyInputMut::Signal(&mut self.amp)),
            InputSlot::Frequency => Ok(AnyInputMut::Signal(&mut self.freq)),
            InputSlot::Wave => Ok(AnyInputMut::Wave(&mut self.wave)),
            InputSlot::Input => Err(WiringError::UnknownSlot),
        }
    }

    fn tick(&mut self) -> (r: Sample)
        decreases node_height(AnyNode::Oscillator(*old(self))), 0nat,
    {
        let freq = self.freq.value();
        let amp = self.amp.value();
        self.pos = advance(self.pos, self.run, freq, self.rate);
        self.synthesize(freq, amp)
    }

    fn press(&mut self) {
        self.run = true;
    }

    fn release(&mut self) {
        self.run = false;
    }
}

/// Adding to a phase that was reduced to a turn is adding to the phase itself.
proof fn lemma_wrap_absorbs(a: int, s: int)
    ensures
        ((a % (TURN as int)) + s) % (TURN as int) == (a + s) % (TURN as int),
{
    let t = TURN as int;
    let q = a / t;
    let m = a % t;
    assert(a == q * t + m && 0 <= m < t) by (nonlinear_arith)
        requires
            q == a / t,
            m == a % t,
            t > 0,
    ;
    assert((m + s) % t == (a + s) % t) by (nonlinear_arith)
        requires
            a == q * t + m,
            t > 0,
    {
        let r = (m + s) % t;
        let p = (m + s) / t;
        assert(m + s == p * t + r && 0 <= r < t);
        assert(a + s == (p + q) * t + r);
    }
}

/// The phase of a running oscillator at a constant frequency wraps: after `k`
/// ticks it is the start phase plus `k` steps, reduced to less than a turn,
/// however many turns the steps add up to. Nothing else of the oscillator changes.
pub proof fn law_phase_wraps(o: Oscillator, k: nat)
    requires
        o.run,
        o.freq is Value,
        o.amp is Value,
    ensures
        node_run(AnyNode::Oscillator(o), k) == AnyNode::Oscillator(
            Oscillator {
                pos: ((o.pos + k * spec_phase_step(o.freq->Value_0, o.rate)) % (
                TURN as int)) as u32,
                ..o
            },
        ),
        0 <= (o.pos + k * spec_phase_step(o.freq->Value_0, o.rate)) % (TURN as int) < TURN,
    decreases k,
{
    let step = spec_phase_step(o.freq->Value_0, o.rate) as int;
    if k == 0 {
        assert(0 * step == 0);
        assert(o.pos as int % (TURN as int) == o.pos);
    } else {
        law_phase_wraps(o, (k - 1) as nat);
        let before = o.pos + (k - 1) * step;
        lemma_wrap_absorbs(before, step);
        assert(before + step == o.pos + k * step) by (nonlinear_arith)
            requires
                before == o.pos + (k - 1) * step,
        ;
    }
}

/// An oscillator that does not run keeps its phase.
pub proof fn law_silent_oscillator_holds_phase(o: Oscillator, k: nat)
    requires
        !o.run,
        o.freq is Value,
        o.amp is Value,
    ensures
        node_run(AnyNode::Oscillator(o), k) == AnyNode::Oscillator(o),
    decreases k,
{
    if k > 0 {
        law_silent_oscillator_holds_phase(o, (k - 1) as nat);
    }
}

} // verus!
