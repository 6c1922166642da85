//! The envelope as a node: it multiplies the signal of its input by its gain.

use super::{
    into_input, lemma_release_then_tick, node_height, node_input, node_out, node_press,
    node_release, node_replace, node_tick, node_wf, AnyInput, AnyInputMut, AnyNode, Input,
    InputSlot, Node, WiringError,
};
use crate::effect::envelope::{Envelope as Adsr, EnvelopeState};
use crate::effect::envelope::spec_unit;
use crate::fixed::{product, spec_samples_for, Sample};
use vstd::prelude::*;

verus! {

/// An envelope generator with a signal input.
#[derive(Debug, PartialEq, Eq)]
pub struct Envelope {
    pub input: Input<Sample>,
    /// The gain and the phase of the envelope.
    pub adsr: Adsr,
}

impl Envelope {
    /// An idle envelope for `rate` samples per second with a silent input. The
    /// three durations are in seconds.
    pub fn new(rate: u32, attack: Sample, decay: Sample, sustain: Sample, release: Sample) -> (r:
        Box<Self>)
        ensures
            r.input == Input::Value(0 as Sample),
            r.adsr.state == EnvelopeState::Idle,
            r.adsr.ticks == 0,
            r.adsr.last_val == 0,
            r.adsr.sustain == spec_unit(sustain),
            r.adsr.attack_samps == spec_samples_for(attack, rate),
            r.adsr.decay_samps == spec_samples_for(decay, rate),
            r.adsr.release_samps == spec_samples_for(release, rate),
            r.wf(),
    {
        let obj = Envelope {
            input: Input::Value(0),
            adsr: Adsr::new(rate, attack, decay, sustain, release),
        };
        Box::new(obj)
    }
}

impl Node<Sample> for Envelope {
    open spec fn wf(&self) -> bool {
        node_wf(AnyNode::Envelope(*self))
    }

    open spec fn out(&self) -> Sample {
        node_out(AnyNode::Envelope(*self))
    }

    open spec fn ticked(&self) -> Self {
        node_tick(AnyNode::Envelope(*self))->Envelope_0
    }

    open spec fn pressed(&self) -> Self {
        node_press(AnyNode::Envelope(*self))->Envelope_0
    }

    open spec fn released(&self) -> Self {
        node_release(AnyNode::Envelope(*self))->Envelope_0
    }

    open spec fn input(&self, slot: InputSlot) -> Option<AnyInput> {
        node_input(AnyNode::Envelope(*self), slot)
    }

    open spec fn replaced(&self, slot: InputSlot, input: AnyInput) -> Self {
        node_replace(AnyNode::Envelope(*self), slot, input)->Envelope_0
    }

    fn get_input(&mut self, slot: InputSlot) -> (r: Result<AnyInputMut<'_>, WiringError>) {
        match slot {
            InputSlot::Input => Ok(AnyInputMut::Signal(&mut self.input)),
            _ => Err(WiringError::UnknownSlot),
        }
    }

    fn set_input(&mut self, input: AnyInput, slot: InputSlot) -> (r: Result<
        AnyInput,
        WiringError,
    >) {
        match slot {
            InputSlot::Input => {
                let signal = match into_input::<Sample>(input) {
                    Ok(signal) => signal,
                    Err(e) => return Err(e),
                };
                let mut signal = signal;
                std::mem::swap(&mut self.input, &mut signal);
                Ok(AnyInput::Signal(signal))
            },
            _ => Err(WiringError::UnknownSlot),
        }
    }

    fn press(&mut self)
        decreases node_height(AnyNode::Envelope(*old(self))), 0nat,
    {
        self.input.press();
        self.adsr.press();
    }

    fn release(&mut self) {
        self.adsr.release();
    }

    fn tick(&mut self) -> (r: Sample)
        decreases node_height(AnyNode::Envelope(*old(self))), 0nat,
    {
        proof {
            lemma_release_then_tick(self.input);
        }
        match self.adsr.state {
            EnvelopeState::Idle => {
                self.input.release();
            },
            _ => {},
        }
        let gain = self.adsr.tick();
        let sample = self.input.value();
        product(sample, gain)
    }
}

} // verus!
