//! An oscillator at a fixed frequency with an effect behind it.

use super::{effect_started, effect_stopped, effect_wf, Effect, Envelope, Sound, Wave};
use crate::fixed::{spec_product, Sample};
use crate::nodes::osc::{advance, waveform};
use crate::nodes::{spec_advance, spec_waveform};
use crate::waveform::{max_harmonic, spec_max_harmonic};
use vstd::prelude::*;

verus! {

/// An oscillator with an effect behind it.
#[derive(Debug, PartialEq, Eq)]
pub struct Osc {
    /// Samples per second.
    pub rate: u32,
    /// The phase, in 2^-32 turns.
    pub pos: u32,
    /// Ticks since the start, up to the most that a `u32` holds.
    pub tick: u32,
    pub run: bool,
    pub freq: Sample,
    pub effect: Option<Box<Envelope>>,
    pub wave: Wave,
}

impl Osc {
    /// The tick count after one more tick.
    pub open spec fn next_count(&self) -> u32 {
        if self.tick == u32::MAX {
            u32::MAX
        } else {
            (self.tick + 1) as u32
        }
    }

    /// The phase at which the next tick reads the wave: one step on while the
    /// oscillator runs, and where it is while it does not.
    pub open spec fn next_pos(&self) -> u32 {
        spec_advance(self.pos, self.run, self.freq, self.rate)
    }

    /// The wave at the phase of the next tick, before any effect.
    pub open spec fn dry(&self) -> Sample {
        spec_waveform(self.wave, self.next_pos(), spec_max_harmonic(self.rate, self.freq))
    }

    /// An oscillator that has not been started, at phase zero and with no
    /// effect behind it.
    pub fn new(rate: u32, freq: Sample, wave: Wave) -> (r: Self)
        ensures
            r == (Osc { rate, run: false, tick: 0, pos: 0, freq, effect: None, wave }),
            r.wf(),
    {
        Osc { rate, run: false, tick: 0, pos: 0, freq, effect: None, wave }
    }
}

impl Sound for Osc {
    open spec fn wf(&self) -> bool {
        effect_wf(self.effect)
    }

    open spec fn out(&self) -> Sample {
        match self.effect {
            Some(effect) => spec_product(self.dry(), effect.out()),
            None => self.dry(),
        }
    }

    open spec fn ticked(&self) -> Self {
        let processed = match self.effect {
            Some(effect) => Some(Box::new(effect.ticked())),
            None => None,
        };
        Osc { pos: self.next_pos(), tick: self.next_count(), effect: processed, ..*self }
    }

    open spec fn started(&self) -> Self {
        Osc { effect: effect_started(self.effect), tick: 0, run: true, ..*self }
    }

    open spec fn stopped(&self) -> Self {
        Osc { effect: effect_stopped(self.effect), run: false, ..*self }
    }

    open spec fn effect(&self) -> Option<Box<Envelope>> {
        self.effect
    }

    open spec fn with_effect(&self, effect: Option<Box<Envelope>>) -> Self {
        Osc { effect, ..*self }
    }

    fn start(&mut self) {
        match &mut self.effect {
            Some(effect) => effect.start(),
            None => {},
        }
        self.tick = 0;
        self.run = true;
    }

    fn stop(&mut self) {
        match &mut self.effect {
            Some(effect) => effect.stop(),
            None => {},
        }
        self.run = false;
    }

    fn connect(&mut self, dest: Box<Envelope>) -> (r: &mut Box<Envelope>) {
        self.effect.insert(dest)
    }

    fn disconnect(&mut self) -> (r: Option<Box<Envelope>>) {
        self.effect.take()
    }

    fn tick(&mut self) -> (r: Sample) {
        self.pos = advance(self.pos, self.run, self.freq, self.rate);
        let max_harmonic = max_harmonic(self.rate, self.freq);
        let mut sample = waveform(self.wave, self.pos, max_harmonic);
        match &mut self.effect {
            Some(effect) => {
                sample = effect.process(sample);
            },
            None => {},
        }
        if self.tick < u32::MAX {
            self.tick = self.tick + 1;
        }
        sample
    }
}

} // verus!
