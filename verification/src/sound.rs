//! Sounds with an effect behind them: a sound can have one effect connected
//! to it, which it starts and stops along with itself, and an effect is a
//! sound that can also process the samples of another.

pub mod osc;
pub mod player;

use crate::effect::envelope::{spec_unit, Envelope as Adsr};
use crate::fixed::{product, spec_product, spec_samples_for, Sample};
use vstd::prelude::*;

pub use crate::effect::envelope::EnvelopeState;
pub use crate::nodes::Wave;
pub use osc::Osc;
pub use player::Player;

verus! {

/// An envelope that may have a further envelope connected behind it.
#[derive(Debug, PartialEq, Eq)]
pub struct Envelope {
    pub effect: Option<Box<Envelope>>,
    /// The gain and the phase of the envelope.
    pub adsr: Adsr,
}

/// Whether an envelope and every envelope behind it is well formed.
pub open spec fn chain_wf(e: Envelope) -> bool
    decreases e,
{
    e.adsr.wf() && match e.effect {
        Some(next) => chain_wf(*next),
        None => true,
    }
}

/// The number of envelopes in a chain.
pub open spec fn chain_len(e: Envelope) -> nat
    decreases e,
{
    match e.effect {
        Some(next) => 1 + chain_len(*next),
        None => 1,
    }
}

/// A chain of envelopes after a start: every one of them begins its attack.
pub open spec fn chain_started(e: Envelope) -> Envelope
    decreases e,
{
    Envelope {
        effect: match e.effect {
            Some(next) => Some(Box::new(chain_started(*next))),
            None => None,
        },
        adsr: e.adsr.pressed(),
    }
}

/// A chain of envelopes after a stop: every one of them begins its release.
pub open spec fn chain_stopped(e: Envelope) -> Envelope
    decreases e,
{
    Envelope {
        effect: match e.effect {
            Some(next) => Some(Box::new(chain_stopped(*next))),
            None => None,
        },
        adsr: e.adsr.released(),
    }
}

/// A connected effect after a start, where there is one.
pub open spec fn effect_started(effect: Option<Box<Envelope>>) -> Option<Box<Envelope>> {
    match effect {
        Some(next) => Some(Box::new(chain_started(*next))),
        None => None,
    }
}

/// A connected effect after a stop, where there is one.
pub open spec fn effect_stopped(effect: Option<Box<Envelope>>) -> Option<Box<Envelope>> {
    match effect {
        Some(next) => Some(Box::new(chain_stopped(*next))),
        None => None,
    }
}

/// Whether a connected effect is well formed, where there is one.
pub open spec fn effect_wf(effect: Option<Box<Envelope>>) -> bool {
    match effect {
        Some(next) => chain_wf(*next),
        None => true,
    }
}

/// Something that produces one sample per tick and can have an effect
/// connected to it.
pub trait Sound: Sized + Send {
    /// What the sound needs to hold for it to tick, start or stop.
    spec fn wf(&self) -> bool;

    /// The sample that the next tick returns.
    spec fn out(&self) -> Sample;

    /// The sound after one tick.
    spec fn ticked(&self) -> Self;

    /// The sound after a start.
    spec fn started(&self) -> Self;

    /// The sound after a stop.
    spec fn stopped(&self) -> Self;

    /// The effect that is connected, if one is.
    spec fn effect(&self) -> Option<Box<Envelope>>;

    /// The sound with `effect` connected in place of what was.
    spec fn with_effect(&self, effect: Option<Box<Envelope>>) -> Self;

    /// Produces the next sample.
    fn tick(&mut self) -> (r: Sample)
        requires
            old(self).wf(),
        ensures
            r == old(self).out(),
            *final(self) == old(self).ticked(),
            final(self).wf(),
    ;

    /// Starts the sound and the effect behind it.
    fn start(&mut self)
        requires
            old(self).wf(),
        ensures
            *final(self) == old(self).started(),
            final(self).wf(),
    ;

    /// Stops the sound and the effect behind it.
    fn stop(&mut self)
        requires
            old(self).wf(),
        ensures
            *final(self) == old(self).stopped(),
            final(self).wf(),
    ;

    /// Connects `dest` in place of any effect that was connected, and lends
    /// it out for the caller to set up.
    fn connect(&mut self, dest: Box<Envelope>) -> (r: &mut Box<Envelope>)
        ensures
            *r == dest,
            *final(self) == old(self).with_effect(Some(*final(r))),
    ;

    /// Takes the connected effect out, if there is one.
    fn disconnect(&mut self) -> (r: Option<Box<Envelope>>)
        ensures
            r == old(self).effect(),
            *final(self) == old(self).with_effect(None),
            final(self).effect() is None,
    ;
}

/// A sound that can shape the samples of another sound.
pub trait Effect: Sound {
    /// The sample as the effect lets it through; the effect moves on by one tick.
    fn process(&mut self, sample: Sample) -> (r: Sample)
        requires
            old(self).wf(),
        ensures
            r == spec_product(sample, old(self).out()),
            *final(self) == old(self).ticked(),
            final(self).wf(),
    ;
}

impl Envelope {
    /// An idle envelope for `rate` samples per second with nothing behind it.
    /// The three durations are in seconds.
    pub fn new(rate: u32, attack: Sample, decay: Sample, sustain: Sample, release: Sample) -> (r:
        Self)
        ensures
            r.effect is None,
            r.adsr.state == EnvelopeState::Idle,
            r.adsr.ticks == 0,
            r.adsr.last_val == 0,
            r.adsr.sustain == spec_unit(sustain),
            r.adsr.attack_samps == spec_samples_for(attack, rate),
            r.adsr.decay_samps == spec_samples_for(decay, rate),
            r.adsr.release_samps == spec_samples_for(release, rate),
            r.wf(),
    {
        Envelope { effect: None, adsr: Adsr::new(rate, attack, decay, sustain, release) }
    }
}

impl Sound for Envelope {
    open spec fn wf(&self) -> bool {
        chain_wf(*self)
    }

    open spec fn out(&self) -> Sample {
        self.adsr.step().last_val
    }

    open spec fn ticked(&self) -> Self {
        Envelope { effect: self.effect, adsr: self.adsr.step() }
    }

    open spec fn started(&self) -> Self {
        chain_started(*self)
    }

    open spec fn stopped(&self) -> Self {
        chain_stopped(*self)
    }

    open spec fn effect(&self) -> Option<Box<Envelope>> {
        self.effect
    }

    open spec fn with_effect(&self, effect: Option<Box<Envelope>>) -> Self {
        Envelope { effect, adsr: self.adsr }
    }

    fn connect(&mut self, dest: Box<Envelope>) -> (r: &mut Box<Envelope>) {
        self.effect.insert(dest)
    }

    fn disconnect(&mut self) -> (r: Option<Box<Envelope>>) {
        self.effect.take()
    }

    fn start(&mut self)
        decreases chain_len(*old(self)),
    {
        match &mut self.effect {
            Some(effect) => effect.start(),
            None => {},
        }
        self.adsr.press();
    }

    fn stop(&mut self)
        decreases chain_len(*old(self)),
    {
        match &mut self.effect {
            Some(effect) => effect.stop(),
            None => {},
        }
        self.adsr.release();
    }

    fn tick(&mut self) -> (r: Sample) {
        self.adsr.tick()
    }
}

impl Effect for Envelope {
    fn process(&mut self, sample: Sample) -> (r: Sample) {
        let val = self.tick();
        product(sample, val)
    }
}

} // verus!
