//! The voice pool: one envelope over one oscillator for every key, commands
//! that arrive over a channel, and the mix of all voices into one sample.

use crate::channel::{poll, Polled};
use crate::effect::envelope::{Envelope as Adsr, EnvelopeState};
use crate::fixed::{clamp, product, saturate, spec_product, trunc_div, Sample, ONE};
use crate::nodes::{
    node_press, node_replace, node_step, signal_out, signal_press, signal_step, AnyInput,
    AnyInputMut, AnyNode, Envelope, Input, InputSlot, Node, Oscillator, Wave,
};
use std::sync::mpsc::Receiver;
use vstd::prelude::*;

verus! {

/// The number of voices, one per key: the keys are numbered from 1 to 17.
pub const VOICES: usize = 17;

/// Samples per second of the stream that the synthesizer produces.
pub const SAMPLE_RATE: u32 = 48000;

/// The frequency of key 1, the lowest: 110 hertz.
pub const BASE_FREQUENCY: Sample = 110_000_000_000_000;

/// The ratio of the frequencies of two neighbouring keys: the twelfth root of
/// two, to twelve places.
pub const SEMITONE: Sample = 1_059_463_094_359;

/// The attack of every voice: a twentieth of a second.
pub const ATTACK: Sample = 50_000_000_000;

/// The decay of every voice: a tenth of a second.
pub const DECAY: Sample = 100_000_000_000;

/// The sustain level of every voice: a fifth of the full gain.
pub const SUSTAIN: Sample = 200_000_000_000;

/// The release of every voice: six tenths of a second.
pub const RELEASE: Sample = 600_000_000_000;

/// What the control surface asks of the synthesizer.
#[derive(Debug, Clone, Copy, PartialEq, Eq)]
pub enum SynthCommand {
    /// The key with this number went down (`true`) or came up (`false`).
    Note(usize, bool),
    /// Every voice is to use this waveform.
    Wave(Wave),
}

/// The synthesizer: its voices and the channel that its commands come from.
pub struct Synth {
    trigger: Receiver<SynthCommand>,
    sounds: Vec<Box<Envelope>>,
}

/// The frequency `n` semitones above `freq` in equal temperament: `freq`
/// multiplied `n` times by [`SEMITONE`].
pub open spec fn spec_semitones(freq: Sample, n: nat) -> Sample
    decreases n,
{
    if n == 0 {
        freq
    } else {
        spec_product(spec_semitones(freq, (n - 1) as nat), SEMITONE)
    }
}

/// The frequency `n` semitones above `freq`.
pub fn semitones(freq: Sample, n: usize) -> (r: Sample)
    ensures
        r == spec_semitones(freq, n as nat),
{
    let mut result: Sample = freq;
    let mut i: usize = 0;
    while i < n
        invariant
            i <= n,
            result == spec_semitones(freq, i as nat),
        decreases n - i,
    {
        result = product(result, SEMITONE);
        i = i + 1;
    }
    result
}

/// The voice at place `key` as a new synthesizer holds it, which is the voice
/// of key `key + 1`: an idle envelope over a sine oscillator that stands
/// still at the key's frequency, `key` semitones above [`BASE_FREQUENCY`].
pub open spec fn spec_voice(key: nat) -> Envelope {
    Envelope {
        input: Input::Node(
            Box::new(
                AnyNode::Oscillator(
                    Oscillator {
                        rate: SAMPLE_RATE,
                        pos: 0,
                        run: false,
                        freq: Input::Value(spec_semitones(BASE_FREQUENCY, key)),
                        amp: Input::Value(ONE),
                        wave: Input::Value(Wave::Sine),
                    },
                ),
            ),
        ),
        adsr: Adsr {
            ticks: 0,
            state: EnvelopeState::Idle,
            last_val: 0,
            sustain: SUSTAIN,
            attack_samps: 2400,
            decay_samps: 4800,
            release_samps: 28800,
        },
    }
}

/// A voice with `wave` as the waveform of the node that drives it, where
/// that node has a waveform slot.
pub open spec fn with_wave(voice: Envelope, wave: Wave) -> Envelope {
    match voice.input {
        Input::Node(node) => Envelope {
            input: Input::Node(
                Box::new(
                    node_replace(*node, InputSlot::Wave, AnyInput::Wave(Input::Value(wave))),
                ),
            ),
            ..voice
        },
        Input::Value(_) => voice,
    }
}

/// Whether a voice is what every voice of a synthesizer is: an envelope over
/// an oscillator with a constant frequency, amplitude and waveform.
pub open spec fn voice_shaped(voice: Envelope) -> bool {
    voice.input matches Input::Node(node) && *node matches AnyNode::Oscillator(osc) && osc.freq
        is Value && osc.amp is Value && osc.wave is Value
}

/// Whether every voice is an envelope over an oscillator.
pub open spec fn voices_shaped(voices: Seq<Envelope>) -> bool {
    forall|i: int| 0 <= i < voices.len() ==> voice_shaped(#[trigger] voices[i])
}

/// Whether a key has a voice: the keys are numbered from 1.
pub open spec fn key_known(voices: Seq<Envelope>, key: usize) -> bool {
    1 <= key <= voices.len()
}

/// The voices after a command. The voice of key `key` stands at place
/// `key - 1`. A note for a key that has no voice changes nothing.
pub open spec fn applied(voices: Seq<Envelope>, command: SynthCommand) -> Seq<Envelope> {
    match command {
        SynthCommand::Note(key, true) => if key_known(voices, key) {
            voices.update(key - 1, voices[key - 1].pressed())
        } else {
            voices
        },
        SynthCommand::Note(key, false) => if key_known(voices, key) {
            voices.update(key - 1, voices[key - 1].released())
        } else {
            voices
        },
        SynthCommand::Wave(wave) => Seq::new(voices.len(), |i: int| with_wave(voices[i], wave)),
    }
}

/// The voices after a sequence of commands, applied in their order.
pub open spec fn applied_all(voices: Seq<Envelope>, commands: Seq<SynthCommand>) -> Seq<Envelope>
    decreases commands.len(),
{
    if commands.len() == 0 {
        voices
    } else {
        applied(applied_all(voices, commands.drop_last()), commands.last())
    }
}

/// The sum of the samples that the next tick of the first `count` voices returns.
pub open spec fn spec_sum(voices: Seq<Envelope>, count: nat) -> int
    decreases count,
{
    if count == 0 {
        0
    } else {
        spec_sum(voices, (count - 1) as nat) + voices[count - 1].out()
    }
}

/// The sample that the next tick of the voices mixes to: the sum of what
/// every voice returns, divided by the number of voices, sounding or not;
/// silence where there is no voice.
pub open spec fn spec_mix(voices: Seq<Envelope>) -> Sample {
    if voices.len() == 0 {
        0
    } else {
        clamp(trunc_div(spec_sum(voices, voices.len()), voices.len() as int))
    }
}

/// The voices after every one of them has ticked.
pub open spec fn ticked_all(voices: Seq<Envelope>) -> Seq<Envelope> {
    Seq::new(voices.len(), |i: int| voices[i].ticked())
}

/// Whether every voice is well formed.
pub open spec fn voices_wf(voices: Seq<Envelope>) -> bool {
    forall|i: int| 0 <= i < voices.len() ==> (#[trigger] voices[i]).wf()
}

/// The voices of a vector as plain values.
pub open spec fn plain(sounds: Seq<Box<Envelope>>) -> Seq<Envelope> {
    Seq::new(sounds.len(), |i: int| *sounds[i])
}

/// Carries out one command on the voices.
fn apply_to(sounds: &mut Vec<Box<Envelope>>, command: SynthCommand)
    requires
        voices_wf(plain(old(sounds)@)),
    ensures
        plain(final(sounds)@) == applied(plain(old(sounds)@), command),
        voices_wf(plain(final(sounds)@)),
{
    assert forall|j: int| 0 <= j < sounds@.len() implies (#[trigger] sounds@[j]).wf() by {
        assert(plain(sounds@)[j].wf());
    }
    match command {
        SynthCommand::Wave(wave) => {
            let count = sounds.len();
            let mut i: usize = 0;
            while i < count
                invariant
                    i <= count,
                    sounds@.len() == count,
                    count == old(sounds)@.len(),
                    forall|j: int|
                        0 <= j < i ==> *(#[trigger] sounds@[j]) == with_wave(
                            *old(sounds)@[j],
                            wave,
                        ),
                    forall|j: int| i <= j < count ==> (#[trigger] sounds@[j]) == old(sounds)@[j],
                    forall|j: int| 0 <= j < count ==> (#[trigger] sounds@[j]).wf(),
                decreases count - i,
            {
                let output = &mut sounds[i];
                match output.get_input(InputSlot::Input) {
                    Ok(AnyInputMut::Signal(input)) => match input {
                        Input::Node(osc) => {
                            let _ = osc.set_input(
                                AnyInput::Wave(Input::Value(wave)),
                                InputSlot::Wave,
                            );
                        },
                        Input::Value(_) => {},
                    },
                    _ => {},
                }
                i = i + 1;
            }
        },
        SynthCommand::Note(key, false) => {
            if 1 <= key && key <= sounds.len() {
                let sound = &mut sounds[key - 1];
                sound.release();
            }
        },
        SynthCommand::Note(key, true) => {
            if 1 <= key && key <= sounds.len() {
                let sound = &mut sounds[key - 1];
                sound.press();
            }
        },
    }
    assert(plain(sounds@) =~= applied(plain(old(sounds)@), command));
}

/// Ticks every voice and mixes what they return.
fn mix(sounds: &mut Vec<Box<Envelope>>) -> (r: Sample)
    requires
        voices_wf(plain(old(sounds)@)),
    ensures
        r == spec_mix(plain(old(sounds)@)),
        plain(final(sounds)@) == ticked_all(plain(old(sounds)@)),
        voices_wf(plain(final(sounds)@)),
{
    let count = sounds.len();
    let mut sum: i128 = 0;
    let mut i: usize = 0;
    assert forall|j: int| 0 <= j < count implies (#[trigger] sounds@[j]).wf() by {
        assert(plain(sounds@)[j].wf());
    }
    while i < count
        invariant
            i <= count,
            sounds@.len() == count,
            count == old(sounds)@.len(),
            forall|j: int| 0 <= j < i ==> *(#[trigger] sounds@[j]) == old(sounds)@[j].ticked(),
            forall|j: int| i <= j < count ==> (#[trigger] sounds@[j]) == old(sounds)@[j],
            forall|j: int| 0 <= j < count ==> (#[trigger] sounds@[j]).wf(),
            sum == spec_sum(plain(old(sounds)@), i as nat),
            -i * 0x8000_0000_0000_0000 <= sum <= i * 0x8000_0000_0000_0000,
        decreases count - i,
    {
        let voice = &mut sounds[i];
        let sample = voice.tick();
        sum = sum + sample as i128;
        i = i + 1;
    }
    assert(plain(sounds@) =~= ticked_all(plain(old(sounds)@)));
    if count == 0 {
        0
    } else {
        saturate(sum / (count as i128))
    }
}

impl Synth {
    /// The voices as plain values, in the order of their keys.
    pub closed spec fn voices(&self) -> Seq<Envelope> {
        plain(self.sounds@)
    }

    /// The channel that the synthesizer takes its commands from.
    pub closed spec fn source(&self) -> Receiver<SynthCommand> {
        self.trigger
    }

    /// Every voice is a well-formed envelope over an oscillator, at all times.
    #[verifier::type_invariant]
    spec fn wf(&self) -> bool {
        voices_wf(self.voices()) && voices_shaped(self.voices())
    }

    /// A synthesizer with [`VOICES`] idle voices, a semitone apart from
    /// [`BASE_FREQUENCY`] up, that takes its commands from `rx`.
    pub fn new(rx: Receiver<SynthCommand>) -> (r: Self)
        ensures
            r.source() == rx,
            r.voices() == Seq::new(VOICES as nat, |key: int| spec_voice(key as nat)),
            voices_shaped(r.voices()),
    {
        let mut sounds: Vec<Box<Envelope>> = Vec::new();
        let mut key: usize = 0;
        while key < VOICES
            invariant
                key <= VOICES,
                sounds@.len() == key,
                forall|i: int| 0 <= i < key ==> *(#[trigger] sounds@[i]) == spec_voice(i as nat),
                forall|i: int| 0 <= i < key ==> (#[trigger] sounds@[i]).wf(),
            decreases VOICES - key,
        {
            let mut osc = Oscillator::new(SAMPLE_RATE);
            let freq = Input::Value(semitones(BASE_FREQUENCY, key));
            osc.set_input(AnyInput::Signal(freq), InputSlot::Frequency).unwrap();
            let mut output = Envelope::new(SAMPLE_RATE, ATTACK, DECAY, SUSTAIN, RELEASE);
            output.set_input(
                AnyInput::Signal(Input::Node(Box::new(AnyNode::Oscillator(*osc)))),
                InputSlot::Input,
            ).unwrap();
            sounds.push(output);
            key = key + 1;
        }
        let synth = Synth { trigger: rx, sounds };
        assert(synth.voices() =~= Seq::new(VOICES as nat, |key: int| spec_voice(key as nat)));
        synth
    }

    /// The number of voices.
    pub fn voice_count(&self) -> (r: usize)
        ensures
            r == self.voices().len(),
    {
        self.sounds.len()
    }

    /// The voice of key `key`, where the synthesizer has one.
    pub fn voice(&self, key: usize) -> (r: Option<&Envelope>)
        ensures
            key_known(self.voices(), key) ==> r == Some(&self.voices()[key - 1]),
            !key_known(self.voices(), key) ==> r is None,
            voices_shaped(self.voices()),
    {
        proof {
            use_type_invariant(self);
        }
        if 1 <= key && key <= self.sounds.len() {
            Some(&self.sounds[key - 1])
        } else {
            None
        }
    }

    /// Samples per second of the stream.
    pub fn sample_rate(&self) -> (r: u32)
        ensures
            r == SAMPLE_RATE,
    {
        SAMPLE_RATE
    }

    /// The number of channels of the stream: one.
    pub fn channels(&self) -> (r: u16)
        ensures
            r == 1,
    {
        1
    }

    /// The length of the current frame, which the endless stream does not have.
    pub fn current_frame_len(&self) -> (r: Option<usize>)
        ensures
            r is None,
    {
        None
    }

    /// Carries out one command: a note presses or releases the voice of its
    /// key, a waveform goes to the oscillator of every voice. A note for a
    /// key without a voice is passed over.
    pub fn apply(&mut self, command: SynthCommand)
        ensures
            final(self).voices() == applied(old(self).voices(), command),
            final(self).source() == old(self).source(),
            voices_shaped(old(self).voices()),
            voices_shaped(final(self).voices()),
    {
        proof {
            use_type_invariant(&*self);
            lemma_applied_keeps_shape(self.voices(), command);
        }
        // The voices leave the synthesizer while they change, so that it is
        // well formed at every moment.
        let mut sounds: Vec<Box<Envelope>> = Vec::new();
        std::mem::swap(&mut self.sounds, &mut sounds);
        apply_to(&mut sounds, command);
        self.sounds = sounds;
    }

    /// Ticks every voice and mixes what they return: the sum divided by the
    /// number of voices.
    pub fn render(&mut self) -> (r: Sample)
        ensures
            r == spec_mix(old(self).voices()),
            final(self).voices() == ticked_all(old(self).voices()),
            final(self).source() == old(self).source(),
            voices_shaped(old(self).voices()),
            voices_shaped(final(self).voices()),
    {
        proof {
            use_type_invariant(&*self);
            lemma_ticked_keeps_shape(self.voices());
        }
        let mut sounds: Vec<Box<Envelope>> = Vec::new();
        std::mem::swap(&mut self.sounds, &mut sounds);
        let sample = mix(&mut sounds);
        self.sounds = sounds;
        sample
    }

    /// Takes what one look at the channel found: a command is carried out, and
    /// there may be more; an empty channel, or one that every sender has
    /// left, changes nothing and ends the taking.
    pub fn take(&mut self, polled: Polled<SynthCommand>) -> (more: bool)
        ensures
            match polled {
                Polled::Message(command) => more && final(self).voices() == applied(
                    old(self).voices(),
                    command,
                ),
                Polled::Empty => !more && final(self).voices() == old(self).voices(),
                Polled::Closed => !more && final(self).voices() == old(self).voices(),
            },
            final(self).source() == old(self).source(),
            voices_shaped(final(self).voices()),
    {
        proof {
            use_type_invariant(&*self);
        }
        match polled {
            Polled::Message(command) => {
                self.apply(command);
                true
            },
            Polled::Empty => false,
            Polled::Closed => false,
        }
    }

    /// Produces the next sample of the stream. Commands are taken from the
    /// channel, in the order in which they were sent, until a look finds the
    /// channel empty or left by every sender, which is no error. Then every
    /// voice ticks once. The stream never ends.
    pub fn next(&mut self) -> (r: Option<Sample>)
        ensures
            final(self).source() == old(self).source(),
            voices_shaped(final(self).voices()),
            exists|commands: Seq<SynthCommand>|
                r == Some(spec_mix(#[trigger] applied_all(old(self).voices(), commands)))
                    && final(self).voices() == ticked_all(
                    applied_all(old(self).voices(), commands),
                ),
    {
        let ghost mut commands: Seq<SynthCommand> = Seq::empty();
        let mut taken: usize = 0;
        let mut more = true;
        while more && taken < usize::MAX
            invariant
                commands.len() == taken,
                self.voices() == applied_all(old(self).voices(), commands),
                self.source() == old(self).source(),
            decreases usize::MAX - taken + if more { 1int } else { 0int },
        {
            let polled = poll(&self.trigger);
            let ghost found = polled;
            more = self.take(polled);
            proof {
                if let Polled::Message(command) = found {
                    assert(commands.push(command).drop_last() =~= commands);
                    commands = commands.push(command);
                }
            }
            if more {
                taken = taken + 1;
            }
        }
        let sample = self.render();
        Some(sample)
    }
}

/// A press, a release, a tick and a new waveform each leave a voice an
/// envelope over an oscillator.
pub proof fn lemma_voice_keeps_shape(voice: Envelope, wave: Wave)
    requires
        voice_shaped(voice),
    ensures
        voice_shaped(voice.pressed()),
        voice_shaped(voice.released()),
        voice_shaped(voice.ticked()),
        voice_shaped(with_wave(voice, wave)),
{
    reveal_with_fuel(node_step, 3);
    reveal_with_fuel(signal_step, 3);
    reveal_with_fuel(node_press, 3);
    reveal_with_fuel(signal_press, 3);
    let osc = voice.input->Node_0->Oscillator_0;
    assert(voice.input == Input::<Sample>::Node(Box::new(AnyNode::Oscillator(osc))));
}

/// A command leaves every voice an envelope over an oscillator.
pub proof fn lemma_applied_keeps_shape(voices: Seq<Envelope>, command: SynthCommand)
    requires
        voices_shaped(voices),
    ensures
        voices_shaped(applied(voices, command)),
{
    assert forall|i: int| 0 <= i < applied(voices, command).len() implies voice_shaped(
        #[trigger] applied(voices, command)[i],
    ) by {
        assert(voice_shaped(voices[i]));
        match command {
            SynthCommand::Wave(wave) => {
                lemma_voice_keeps_shape(voices[i], wave);
            },
            SynthCommand::Note(key, down) => {
                lemma_voice_keeps_shape(voices[i], Wave::Sine);
            },
        }
    }
}

/// A tick leaves every voice an envelope over an oscillator.
pub proof fn lemma_ticked_keeps_shape(voices: Seq<Envelope>)
    requires
        voices_shaped(voices),
    ensures
        voices_shaped(ticked_all(voices)),
{
    assert forall|i: int| 0 <= i < voices.len() implies voice_shaped(
        #[trigger] ticked_all(voices)[i],
    ) by {
        assert(voice_shaped(voices[i]));
        lemma_voice_keeps_shape(voices[i], Wave::Sine);
    }
}

/// A waveform reaches the oscillator of every voice, and changes nothing
/// else of any voice.
pub proof fn law_wave_reaches_every_voice(voices: Seq<Envelope>, wave: Wave, i: int)
    requires
        voices_shaped(voices),
        0 <= i < voices.len(),
    ensures
        applied(voices, SynthCommand::Wave(wave)).len() == voices.len(),
        applied(voices, SynthCommand::Wave(wave))[i] == (Envelope {
            input: Input::Node(
                Box::new(
                    AnyNode::Oscillator(
                        Oscillator {
                            wave: Input::Value(wave),
                            ..voices[i].input->Node_0->Oscillator_0
                        },
                    ),
                ),
            ),
            ..voices[i]
        }),
{
    assert(voice_shaped(voices[i]));
}

/// A voice whose envelope is idle contributes silence.
pub proof fn lemma_idle_voice_is_silent(voice: Envelope)
    requires
        voice.adsr.state is Idle,
    ensures
        voice.out() == 0,
{
}

/// A voice whose envelope is at full gain contributes what its input yields.
pub proof fn lemma_full_gain_passes_input(voice: Envelope)
    requires
        !(voice.adsr.state is Idle),
        voice.adsr.step().last_val == ONE,
    ensures
        voice.out() == signal_out(voice.input),
{
    let x = signal_out(voice.input);
    assert(trunc_div(x * ONE, ONE as int) == x) by (nonlinear_arith)
        requires
            ONE == 1_000_000_000_000,
    {
        assert((x * 1_000_000_000_000) / 1_000_000_000_000 == x);
        assert(((-x) * 1_000_000_000_000) / 1_000_000_000_000 == -x);
        assert(-(x * 1_000_000_000_000) == (-x) * 1_000_000_000_000);
    }
}

/// The sum over voices that are silent but for `a` and `b` is what those two return.
proof fn lemma_sum_of_two(voices: Seq<Envelope>, a: int, b: int, count: nat)
    requires
        0 <= a < b < voices.len(),
        count <= voices.len(),
        forall|k: int| 0 <= k < voices.len() && k != a && k != b ==> (#[trigger] voices[k]).out() == 0,
    ensures
        spec_sum(voices, count) == (if a < count {
            voices[a].out() as int
        } else {
            0
        }) + (if b < count {
            voices[b].out() as int
        } else {
            0
        }),
    decreases count,
{
    if count > 0 {
        lemma_sum_of_two(voices, a, b, (count - 1) as nat);
    }
}

/// With two voices at full gain and all others idle, the mix is the sum of
/// what the inputs of the two yield, divided by the number of all voices, not
/// of those that sound.
pub proof fn law_mix_divides_by_all_voices(voices: Seq<Envelope>, a: int, b: int)
    requires
        0 <= a < voices.len(),
        0 <= b < voices.len(),
        a != b,
        !(voices[a].adsr.state is Idle) && voices[a].adsr.step().last_val == ONE,
        !(voices[b].adsr.state is Idle) && voices[b].adsr.step().last_val == ONE,
        forall|k: int|
            0 <= k < voices.len() && k != a && k != b ==> (#[trigger] voices[k]).adsr.state is Idle,
    ensures
        spec_mix(voices) == clamp(
            trunc_div(
                signal_out(voices[a].input) + signal_out(
                    voices[b].input,
                ),
                voices.len() as int,
            ),
        ),
{
    lemma_full_gain_passes_input(voices[a]);
    lemma_full_gain_passes_input(voices[b]);
    assert forall|k: int| 0 <= k < voices.len() && k != a && k != b implies (
    #[trigger] voices[k]).out() == 0 by {
        lemma_idle_voice_is_silent(voices[k]);
    }
    if a < b {
        lemma_sum_of_two(voices, a, b, voices.len());
    } else {
        lemma_sum_of_two(voices, b, a, voices.len());
    }
}

/// A note for a key that has no voice, key 0 or a key above the number of
/// voices, leaves every voice as it was.
pub proof fn law_unknown_key_is_ignored(voices: Seq<Envelope>, key: usize, down: bool)
    requires
        !key_known(voices, key),
    ensures
        applied(voices, SynthCommand::Note(key, down)) == voices,
{
}

/// A note changes no voice but that of its key.
pub proof fn law_note_touches_one_voice(voices: Seq<Envelope>, key: usize, down: bool, other: int)
    requires
        0 <= other < voices.len(),
        other != key - 1,
    ensures
        applied(voices, SynthCommand::Note(key, down)).len() == voices.len(),
        applied(voices, SynthCommand::Note(key, down))[other] == voices[other],
{
}

} // verus!
