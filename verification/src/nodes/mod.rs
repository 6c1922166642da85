//! The signal graph: nodes, their inputs, and what a graph does on a tick.
//!
//! A graph is a tree. An input is a constant or a node that the input owns,
//! and the nodes are the closed set [`AnyNode`], so that a whole graph is a
//! plain value and what a tick, a key press or a new wire does to it can be
//! said by a function on graphs.

pub mod envelope;
pub mod osc;
pub mod types;

use crate::effect::envelope::Envelope as Adsr;
use crate::fixed::{spec_product, Sample, ONE};
use crate::waveform::{
    spec_max_harmonic, spec_saw, spec_sine, spec_square, spec_triangle, TURN,
};
use vstd::prelude::*;

pub use envelope::Envelope;
pub use osc::Oscillator;
pub use types::Wave;

verus! {

/// The named places where an input can be wired into a node.
#[derive(Debug, Clone, Copy, PartialEq, Eq, Structural)]
pub enum InputSlot {
    Input,
    Wave,
    Frequency,
    Amplitude,
}

/// Why a wire could not be attached or looked up.
#[derive(Debug, Clone, Copy, PartialEq, Eq, Structural)]
pub enum WiringError {
    /// The node has no slot of that name.
    UnknownSlot,
    /// The slot takes another kind of value.
    TypeMismatch,
}

/// What is wired into a slot: a constant, or a node that the input owns and
/// evaluates once per tick.
#[derive(Debug, PartialEq, Eq)]
pub enum Input<T> {
    Node(Box<AnyNode>),
    Value(T),
}

/// A node of any of the kinds that the graph is made of.
#[derive(Debug, PartialEq, Eq)]
pub enum AnyNode {
    Oscillator(Oscillator),
    Envelope(Envelope),
}

/// An input of either kind, as it is handed to a slot.
#[derive(Debug, PartialEq, Eq)]
pub enum AnyInput {
    Signal(Input<Sample>),
    Wave(Input<Wave>),
}

/// A slot of a node, borrowed for the caller to look at or to change.
#[derive(Debug)]
pub enum AnyInputMut<'a> {
    Signal(&'a mut Input<Sample>),
    Wave(&'a mut Input<Wave>),
}

/// The change of phase in one sample at `freq` hertz and `rate` samples per
/// second, in 2^-32 turns. A negative frequency turns backwards.
pub open spec fn spec_phase_step(freq: Sample, rate: u32) -> u32 {
    if rate == 0 {
        0
    } else {
        (((freq * TURN) / (rate * ONE)) % (TURN as int)) as u32
    }
}

/// The phase after one sample; an oscillator that does not run keeps its phase.
pub open spec fn spec_advance(pos: u32, run: bool, freq: Sample, rate: u32) -> u32 {
    if run {
        ((pos + spec_phase_step(freq, rate)) % (TURN as int)) as u32
    } else {
        pos
    }
}

/// The wave of shape `wave` at `phase`, band-limited to `max_harmonic`.
pub open spec fn spec_waveform(wave: Wave, phase: u32, max_harmonic: u64) -> Sample {
    match wave {
        Wave::Sine => spec_sine(phase),
        Wave::Saw => spec_saw(phase, false, max_harmonic),
        Wave::Square => spec_square(phase, max_harmonic),
        Wave::Triangle => spec_triangle(phase, max_harmonic),
    }
}

/// The wave that a waveform input selects. A node yields a signal, not a
/// waveform, so only a constant is a well-formed waveform input.
pub open spec fn wave_of(input: Input<Wave>) -> Wave {
    match input {
        Input::Value(w) => w,
        Input::Node(_) => Wave::Sine,
    }
}

/// Whether a node and all nodes wired into it can be ticked: every waveform
/// input is a constant and every envelope is well formed.
pub open spec fn node_wf(n: AnyNode) -> bool
    decreases n,
{
    match n {
        AnyNode::Oscillator(o) => signal_wf(o.freq) && signal_wf(o.amp) && o.wave is Value,
        AnyNode::Envelope(e) => e.adsr.wf() && signal_wf(e.input),
    }
}

/// Whether a signal input is a constant or a well-formed node.
pub open spec fn signal_wf(input: Input<Sample>) -> bool
    decreases input,
{
    match input {
        Input::Value(_) => true,
        Input::Node(n) => node_wf(*n),
    }
}

/// The number of levels of a node and the nodes wired into its signal inputs.
pub open spec fn node_height(n: AnyNode) -> nat
    decreases n,
{
    match n {
        AnyNode::Oscillator(o) => 1 + signal_height(o.freq) + signal_height(o.amp),
        AnyNode::Envelope(e) => 1 + signal_height(e.input),
    }
}

/// The number of levels of the node that drives a signal input; none for a constant.
pub open spec fn signal_height(input: Input<Sample>) -> nat
    decreases input,
{
    match input {
        Input::Value(_) => 0,
        Input::Node(n) => 1 + node_height(*n),
    }
}

/// The sample that the next tick of a node returns.
pub open spec fn node_out(n: AnyNode) -> Sample
    decreases n,
{
    match n {
        AnyNode::Oscillator(o) => {
            let freq = signal_out(o.freq);
            let pos = spec_advance(o.pos, o.run, freq, o.rate);
            spec_product(
                spec_waveform(wave_of(o.wave), pos, spec_max_harmonic(o.rate, freq)),
                signal_out(o.amp),
            )
        },
        AnyNode::Envelope(e) => if e.adsr.state is Idle {
            0
        } else {
            spec_product(signal_out(e.input), e.adsr.step().last_val)
        },
    }
}

/// The sample that the next evaluation of a signal input returns.
pub open spec fn signal_out(input: Input<Sample>) -> Sample
    decreases input,
{
    match input {
        Input::Value(v) => v,
        Input::Node(n) => node_out(*n),
    }
}

/// A node after one tick, or, with `released`, after a key release and one tick.
pub open spec fn node_step(n: AnyNode, released: bool) -> AnyNode
    decreases n,
{
    match n {
        AnyNode::Oscillator(o) => AnyNode::Oscillator(
            Oscillator {
                pos: spec_advance(o.pos, o.run && !released, signal_out(o.freq), o.rate),
                run: o.run && !released,
                freq: signal_step(o.freq, false),
                amp: signal_step(o.amp, false),
                ..o
            },
        ),
        AnyNode::Envelope(e) => {
            let adsr = if released {
                e.adsr.released()
            } else {
                e.adsr
            };
            AnyNode::Envelope(
                Envelope { adsr: adsr.step(), input: signal_step(e.input, adsr.state is Idle) },
            )
        },
    }
}

/// A signal input after one evaluation, or, with `released`, after a key
/// release and one evaluation: a constant stays as it is.
pub open spec fn signal_step(input: Input<Sample>, released: bool) -> Input<Sample>
    decreases input,
{
    match input {
        Input::Value(v) => Input::Value(v),
        Input::Node(n) => Input::Node(Box::new(node_step(*n, released))),
    }
}

/// A node after one tick. An oscillator evaluates its frequency and its
/// amplitude and moves its phase on; an envelope moves its gain on and
/// evaluates its input, which it releases first while it is idle.
pub open spec fn node_tick(n: AnyNode) -> AnyNode {
    node_step(n, false)
}

/// A signal input after one evaluation: a constant stays, a node ticks.
pub open spec fn signal_tick(input: Input<Sample>) -> Input<Sample> {
    signal_step(input, false)
}

/// A node after `k` ticks with no key event and no new wire in between.
pub open spec fn node_run(n: AnyNode, k: nat) -> AnyNode
    decreases k,
{
    if k == 0 {
        n
    } else {
        node_tick(node_run(n, (k - 1) as nat))
    }
}

/// A node after a key press: an oscillator runs, an envelope starts its attack
/// and passes the press on to its input.
pub open spec fn node_press(n: AnyNode) -> AnyNode
    decreases n,
{
    match n {
        AnyNode::Oscillator(o) => AnyNode::Oscillator(Oscillator { run: true, ..o }),
        AnyNode::Envelope(e) => AnyNode::Envelope(
            Envelope { adsr: e.adsr.pressed(), input: signal_press(e.input) },
        ),
    }
}

/// A signal input after a key press.
pub open spec fn signal_press(input: Input<Sample>) -> Input<Sample>
    decreases input,
{
    match input {
        Input::Value(v) => Input::Value(v),
        Input::Node(n) => Input::Node(Box::new(node_press(*n))),
    }
}

/// A node after a key release: an oscillator holds its phase, an envelope
/// starts its release and leaves its input alone.
pub open spec fn node_release(n: AnyNode) -> AnyNode {
    match n {
        AnyNode::Oscillator(o) => AnyNode::Oscillator(Oscillator { run: false, ..o }),
        AnyNode::Envelope(e) => AnyNode::Envelope(Envelope { adsr: e.adsr.released(), ..e }),
    }
}

/// A signal input after a key release.
pub open spec fn signal_release(input: Input<Sample>) -> Input<Sample> {
    match input {
        Input::Value(v) => Input::Value(v),
        Input::Node(n) => Input::Node(Box::new(node_release(*n))),
    }
}

/// A release followed by a tick is the step that `released` selects, and a
/// release changes no height.
pub proof fn lemma_release_then_tick(input: Input<Sample>)
    ensures
        signal_tick(signal_release(input)) == signal_step(input, true),
        signal_height(signal_release(input)) == signal_height(input),
{
    match input {
        Input::Value(_) => {},
        Input::Node(n) => {
            assert(node_tick(node_release(*n)) == node_step(*n, true));
            assert(node_height(node_release(*n)) == node_height(*n));
        },
    }
}

/// What is wired into `slot` of a node, where the node has that slot.
pub open spec fn node_input(n: AnyNode, slot: InputSlot) -> Option<AnyInput> {
    match n {
        AnyNode::Oscillator(o) => match slot {
            InputSlot::Amplitude => Some(AnyInput::Signal(o.amp)),
            InputSlot::Frequency => Some(AnyInput::Signal(o.freq)),
            InputSlot::Wave => Some(AnyInput::Wave(o.wave)),
            InputSlot::Input => None,
        },
        AnyNode::Envelope(e) => match slot {
            InputSlot::Input => Some(AnyInput::Signal(e.input)),
            _ => None,
        },
    }
}

/// The node with `input` in `slot`. A node without that slot, or with a slot
/// of the other kind there, stays as it is.
pub open spec fn node_replace(n: AnyNode, slot: InputSlot, input: AnyInput) -> AnyNode {
    match n {
        AnyNode::Oscillator(o) => match (slot, input) {
            (InputSlot::Amplitude, AnyInput::Signal(i)) => AnyNode::Oscillator(
                Oscillator { amp: i, ..o },
            ),
            (InputSlot::Frequency, AnyInput::Signal(i)) => AnyNode::Oscillator(
                Oscillator { freq: i, ..o },
            ),
            (InputSlot::Wave, AnyInput::Wave(i)) => AnyNode::Oscillator(
                Oscillator { wave: i, ..o },
            ),
            _ => n,
        },
        AnyNode::Envelope(e) => match (slot, input) {
            (InputSlot::Input, AnyInput::Signal(i)) => AnyNode::Envelope(
                Envelope { input: i, ..e },
            ),
            _ => n,
        },
    }
}

/// Whether `input` may replace what is `present` in a slot: the slot has to
/// exist, and the input has to be of its kind. A node yields a signal, so it
/// is of the wrong kind for a waveform slot.
pub open spec fn wiring_check(present: Option<AnyInput>, input: AnyInput) -> Result<
    (),
    WiringError,
> {
    match (present, input) {
        (None, _) => Err(WiringError::UnknownSlot),
        (Some(AnyInput::Signal(_)), AnyInput::Signal(_)) => Ok(()),
        (Some(AnyInput::Wave(_)), AnyInput::Wave(Input::Value(_))) => Ok(()),
        _ => Err(WiringError::TypeMismatch),
    }
}

/// A kind of value that a slot can take: a signal or a waveform.
pub trait SlotValue: Copy + Sized {
    /// The input of this kind that `input` holds, or the mismatch.
    spec fn spec_from_any(input: AnyInput) -> Result<Input<Self>, WiringError>;

    /// Takes an input of this kind out of an input of either kind.
    fn from_any(input: AnyInput) -> (r: Result<Input<Self>, WiringError>)
        ensures
            r == Self::spec_from_any(input),
    ;
}

impl SlotValue for Sample {
    open spec fn spec_from_any(input: AnyInput) -> Result<Input<Sample>, WiringError> {
        match input {
            AnyInput::Signal(signal) => Ok(signal),
            AnyInput::Wave(_) => Err(WiringError::TypeMismatch),
        }
    }

    fn from_any(input: AnyInput) -> (r: Result<Input<Sample>, WiringError>) {
        match input {
            AnyInput::Signal(signal) => Ok(signal),
            AnyInput::Wave(_) => Err(WiringError::TypeMismatch),
        }
    }
}

impl SlotValue for Wave {
    open spec fn spec_from_any(input: AnyInput) -> Result<Input<Wave>, WiringError> {
        match input {
            AnyInput::Wave(wave) => Ok(wave),
            AnyInput::Signal(_) => Err(WiringError::TypeMismatch),
        }
    }

    fn from_any(input: AnyInput) -> (r: Result<Input<Wave>, WiringError>) {
        match input {
            AnyInput::Wave(wave) => Ok(wave),
            AnyInput::Signal(_) => Err(WiringError::TypeMismatch),
        }
    }
}

/// Takes the input of kind `T` out of an input of either kind. An input of the
/// other kind is a mismatch.
pub fn into_input<T: SlotValue>(input: AnyInput) -> (r: Result<Input<T>, WiringError>)
    ensures
        r == T::spec_from_any(input),
{
    T::from_any(input)
}

/// A unit of the graph: it produces one value per tick and follows key
/// presses and releases.
pub trait Node<T>: Sized {
    /// What the node needs to hold for its methods to be called.
    spec fn wf(&self) -> bool;

    /// The value that the next tick returns.
    spec fn out(&self) -> T;

    /// The node after one tick.
    spec fn ticked(&self) -> Self;

    /// The node after a key press.
    spec fn pressed(&self) -> Self;

    /// The node after a key release.
    spec fn released(&self) -> Self;

    /// What is wired into `slot`, where the node has that slot.
    spec fn input(&self, slot: InputSlot) -> Option<AnyInput>;

    /// The node with `input` in `slot`, where it has a slot of that kind there.
    spec fn replaced(&self, slot: InputSlot, input: AnyInput) -> Self;

    /// Borrows what is wired into `slot`. Whatever the caller leaves there is
    /// what the node then holds in that slot.
    fn get_input(&mut self, slot: InputSlot) -> (r: Result<AnyInputMut<'_>, WiringError>)
        ensures
            match old(self).input(slot) {
                Some(AnyInput::Signal(input)) => r matches Ok(AnyInputMut::Signal(slot_ref))
                    && *slot_ref == input && *final(self) == old(self).replaced(
                    slot,
                    AnyInput::Signal(*final(slot_ref)),
                ),
                Some(AnyInput::Wave(input)) => r matches Ok(AnyInputMut::Wave(slot_ref))
                    && *slot_ref == input && *final(self) == old(self).replaced(
                    slot,
                    AnyInput::Wave(*final(slot_ref)),
                ),
                None => r matches Err(e) && e == WiringError::UnknownSlot && *final(self) == *old(
                    self,
                ),
            },
    ;

    /// Replaces the input in `slot` and hands the previous one back. A slot
    /// that the node does not have, or an input of the wrong kind, is an
    /// error and leaves the node as it was.
    fn set_input(&mut self, input: AnyInput, slot: InputSlot) -> (r: Result<AnyInput, WiringError>)
        ensures
            match wiring_check(old(self).input(slot), input) {
                Ok(_) => r == Ok::<AnyInput, WiringError>(old(self).input(slot).unwrap())
                    && *final(self) == old(self).replaced(slot, input) && final(self).input(slot)
                    == Some(input),
                Err(e) => r == Err::<AnyInput, WiringError>(e) && *final(self) == *old(self),
            },
            forall|other: InputSlot|
                other != slot ==> final(self).input(other) == old(self).input(other),
            old(self).wf() && input.wf() ==> final(self).wf(),
            old(self).wf() && r is Ok ==> r.unwrap().wf(),
    ;

    /// Produces the next value and advances by one tick.
    fn tick(&mut self) -> (r: T)
        requires
            old(self).wf(),
        ensures
            r == old(self).out(),
            *final(self) == old(self).ticked(),
            final(self).wf(),
    ;

    /// Takes note of a key press.
    fn press(&mut self)
        requires
            old(self).wf(),
        ensures
            *final(self) == old(self).pressed(),
            final(self).wf(),
    ;

    /// Takes note of a key release.
    fn release(&mut self)
        requires
            old(self).wf(),
        ensures
            *final(self) == old(self).released(),
            final(self).wf(),
    ;
}

impl Input<Sample> {
    /// A node that drives the input is well formed.
    pub open spec fn wf(&self) -> bool {
        signal_wf(*self)
    }

    /// Evaluates the input for one tick: a constant is returned as it is, a
    /// node is ticked and nothing else changes.
    pub fn value(&mut self) -> (r: Sample)
        requires
            old(self).wf(),
        ensures
            r == signal_out(*old(self)),
            *final(self) == signal_tick(*old(self)),
            final(self).wf(),
        decreases signal_height(*old(self)), 0nat,
    {
        match self {
            Input::Node(node) => node.tick(),
            Input::Value(value) => *value,
        }
    }

    /// Passes a key press on to the node that drives the input, if one does.
    pub fn press(&mut self)
        requires
            old(self).wf(),
        ensures
            *final(self) == signal_press(*old(self)),
            final(self).wf(),
        decreases signal_height(*old(self)), 0nat,
    {
        match self {
            Input::Node(node) => node.press(),
            Input::Value(_) => {},
        }
    }

    /// Passes a key release on to the node that drives the input, if one does.
    pub fn release(&mut self)
        requires
            old(self).wf(),
        ensures
            *final(self) == signal_release(*old(self)),
            final(self).wf(),
    {
        match self {
            Input::Node(node) => node.release(),
            Input::Value(_) => {},
        }
    }
}

impl Input<Wave> {
    /// A waveform input is a constant: no node yields a waveform.
    pub open spec fn wf(&self) -> bool {
        self is Value
    }

    /// Evaluates the input for one tick, which leaves it as it is.
    pub fn value(&mut self) -> (r: Wave)
        requires
            old(self).wf(),
        ensures
            r == wave_of(*old(self)),
            *final(self) == *old(self),
    {
        match self {
            Input::Node(_) => Wave::Sine,
            Input::Value(value) => *value,
        }
    }
}

impl Node<Sample> for AnyNode {
    open spec fn wf(&self) -> bool {
        node_wf(*self)
    }

    open spec fn out(&self) -> Sample {
        node_out(*self)
    }

    open spec fn ticked(&self) -> Self {
        node_tick(*self)
    }

    open spec fn pressed(&self) -> Self {
        node_press(*self)
    }

    open spec fn released(&self) -> Self {
        node_release(*self)
    }

    open spec fn input(&self, slot: InputSlot) -> Option<AnyInput> {
        node_input(*self, slot)
    }

    open spec fn replaced(&self, slot: InputSlot, input: AnyInput) -> Self {
        node_replace(*self, slot, input)
    }

    fn get_input(&mut self, slot: InputSlot) -> (r: Result<AnyInputMut<'_>, WiringError>) {
        match self {
            AnyNode::Oscillator(osc) => osc.get_input(slot),
            AnyNode::Envelope(envelope) => envelope.get_input(slot),
        }
    }

    fn set_input(&mut self, input: AnyInput, slot: InputSlot) -> (r: Result<
        AnyInput,
        WiringError,
    >) {
        match self {
            AnyNode::Oscillator(osc) => osc.set_input(input, slot),
            AnyNode::Envelope(envelope) => envelope.set_input(input, slot),
        }
    }

    fn tick(&mut self) -> (r: Sample)
        decreases node_height(*old(self)), 1nat,
    {
        match self {
            AnyNode::Oscillator(osc) => osc.tick(),
            AnyNode::Envelope(envelope) => envelope.tick(),
        }
    }

    fn press(&mut self)
        decreases node_height(*old(self)), 1nat,
    {
        match self {
            AnyNode::Oscillator(osc) => osc.press(),
            AnyNode::Envelope(envelope) => envelope.press(),
        }
    }

    fn release(&mut self) {
        match self {
            AnyNode::Oscillator(osc) => osc.release(),
            AnyNode::Envelope(envelope) => envelope.release(),
        }
    }
}

impl AnyInput {
    /// The input that is held is well formed.
    pub open spec fn wf(&self) -> bool {
        match self {
            AnyInput::Signal(input) => input.wf(),
            AnyInput::Wave(input) => input.wf(),
        }
    }
}

} // verus!
