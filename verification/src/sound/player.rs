//! A player that makes a voice when a key first goes down: an oscillator
//! with an envelope behind it, kept under the number of its key from then on.

use super::{Envelope, Osc, Sound, Wave};
use crate::channel::{poll, Polled};
use crate::effect::envelope::{Envelope as Adsr, EnvelopeState};
use crate::fixed::{clamp, saturate, trunc_div, Sample};
use crate::synth::{semitones, spec_semitones, SAMPLE_RATE};
use std::sync::mpsc::Receiver;
use vstd::prelude::*;

verus! {

/// The frequency of key 1: ten semitones above 440 hertz.
pub const PLAYER_BASE: Sample = 783_990_871_961_307;

/// The key numbers that select a waveform instead of playing a note.
pub const SINE_KEY: usize = 100;

pub const SAW_KEY: usize = 101;

pub const SQUARE_KEY: usize = 102;

pub const TRIANGLE_KEY: usize = 103;

/// A sound and the key that it belongs to.
#[derive(Debug, PartialEq, Eq)]
pub struct Voice {
    pub key: usize,
    pub sound: Osc,
}

/// The player: its voices in the order in which their keys first went down,
/// the waveform for new voices, and the channel that its commands come from.
pub struct Player {
    trigger: Receiver<(usize, bool)>,
    sounds: Vec<Voice>,
    wave: Wave,
}

/// The waveform that a key number selects, if it selects one.
pub open spec fn spec_wave_key(key: usize) -> Option<Wave> {
    if key == SINE_KEY {
        Some(Wave::Sine)
    } else if key == SAW_KEY {
        Some(Wave::Saw)
    } else if key == SQUARE_KEY {
        Some(Wave::Square)
    } else if key == TRIANGLE_KEY {
        Some(Wave::Triangle)
    } else {
        None
    }
}

/// The voice that a key press makes: a started oscillator at the frequency
/// of the key, with a started envelope behind it.
pub open spec fn spec_fresh(key: usize, wave: Wave) -> Voice
    recommends
        key >= 1,
{
    Voice {
        key,
        sound: Osc {
            rate: SAMPLE_RATE,
            pos: 0,
            tick: 0,
            run: true,
            freq: spec_semitones(PLAYER_BASE, (key - 1) as nat),
            effect: Some(
                Box::new(
                    Envelope {
                        effect: None,
                        adsr: Adsr {
                            ticks: 0,
                            state: EnvelopeState::Attack(0),
                            last_val: 0,
                            sustain: 800_000_000_000,
                            attack_samps: 4800,
                            decay_samps: 2400,
                            release_samps: 12000,
                        },
                    },
                ),
            ),
            wave,
        },
    }
}

/// Whether a voice is kept under `key`.
pub open spec fn has_key(voices: Seq<Voice>, key: usize) -> bool {
    exists|i: int| 0 <= i < voices.len() && (#[trigger] voices[i]).key == key
}

/// Whether no two voices are kept under one key.
pub open spec fn keys_distinct(voices: Seq<Voice>) -> bool {
    forall|i: int, j: int|
        0 <= i < j < voices.len() ==> (#[trigger] voices[i]).key != (#[trigger] voices[j]).key
}

/// Whether every voice is kept under a key that plays a note: a key from 1
/// up that selects no waveform.
pub open spec fn keys_playable(voices: Seq<Voice>) -> bool {
    forall|i: int|
        0 <= i < voices.len() ==> (#[trigger] voices[i]).key != 0 && spec_wave_key(voices[i].key)
            is None
}

/// Whether every voice can tick.
pub open spec fn sounds_wf(voices: Seq<Voice>) -> bool {
    forall|i: int| 0 <= i < voices.len() ==> (#[trigger] voices[i]).sound.wf()
}

/// The voices after the key of `voice` went down: the voice that is kept
/// under the key is started again as it is, and where there is none, `voice`
/// comes behind all others.
pub open spec fn with_pressed(voices: Seq<Voice>, voice: Voice) -> Seq<Voice> {
    if has_key(voices, voice.key) {
        Seq::new(
            voices.len(),
            |i: int|
                if voices[i].key == voice.key {
                    Voice { key: voice.key, sound: voices[i].sound.started() }
                } else {
                    voices[i]
                },
        )
    } else {
        voices.push(voice)
    }
}

/// The voices with the one under `key` stopped, if there is one.
pub open spec fn with_stopped(voices: Seq<Voice>, key: usize) -> Seq<Voice> {
    Seq::new(
        voices.len(),
        |i: int|
            if voices[i].key == key {
                Voice { key, sound: voices[i].sound.stopped() }
            } else {
                voices[i]
            },
    )
}

/// The voices after a command. A key number that selects a waveform touches
/// no voice; a key that comes up stops its voice; a key from 1 up that goes
/// down starts its voice again, or gets a new voice with the waveform `wave`
/// if it has none; key 0 has no note. No voice is ever taken away.
pub open spec fn voices_after(voices: Seq<Voice>, wave: Wave, command: (usize, bool)) -> Seq<
    Voice,
> {
    if spec_wave_key(command.0) is Some {
        voices
    } else if !command.1 {
        with_stopped(voices, command.0)
    } else if command.0 == 0 {
        voices
    } else {
        with_pressed(voices, spec_fresh(command.0, wave))
    }
}

/// The waveform for new voices after a command.
pub open spec fn wave_after(wave: Wave, command: (usize, bool)) -> Wave {
    match spec_wave_key(command.0) {
        Some(selected) => selected,
        None => wave,
    }
}

/// The voices and the waveform after a sequence of commands, in their order.
pub open spec fn after_all(voices: Seq<Voice>, wave: Wave, commands: Seq<(usize, bool)>) -> (
    Seq<Voice>,
    Wave,
)
    decreases commands.len(),
{
    if commands.len() == 0 {
        (voices, wave)
    } else {
        let before = after_all(voices, wave, commands.drop_last());
        (
            voices_after(before.0, before.1, commands.last()),
            wave_after(before.1, commands.last()),
        )
    }
}

/// The sum of the samples that the next tick of the first `count` voices returns.
pub open spec fn spec_voice_sum(voices: Seq<Voice>, count: nat) -> int
    decreases count,
{
    if count == 0 {
        0
    } else {
        spec_voice_sum(voices, (count - 1) as nat) + voices[count - 1].sound.out()
    }
}

/// The sample that the next tick mixes to: the sum of what every voice
/// returns, divided by the number of voices; silence where there is none.
pub open spec fn spec_voice_mix(voices: Seq<Voice>) -> Sample {
    if voices.len() == 0 {
        0
    } else {
        clamp(trunc_div(spec_voice_sum(voices, voices.len()), voices.len() as int))
    }
}

/// The voices after every one of them has ticked.
pub open spec fn voices_ticked(voices: Seq<Voice>) -> Seq<Voice> {
    Seq::new(voices.len(), |i: int| Voice { key: voices[i].key, sound: voices[i].sound.ticked() })
}

/// The waveform that a key number selects.
pub fn wave_key(key: usize) -> (r: Option<Wave>)
    ensures
        r == spec_wave_key(key),
{
    if key == SINE_KEY {
        Some(Wave::Sine)
    } else if key == SAW_KEY {
        Some(Wave::Saw)
    } else if key == SQUARE_KEY {
        Some(Wave::Square)
    } else if key == TRIANGLE_KEY {
        Some(Wave::Triangle)
    } else {
        None
    }
}

/// The place of the voice that is kept under `key`.
fn find(sounds: &Vec<Voice>, key: usize) -> (r: Option<usize>)
    ensures
        match r {
            Some(i) => i < sounds@.len() && sounds@[i as int].key == key,
            None => !has_key(sounds@, key),
        },
{
    let mut i: usize = 0;
    while i < sounds.len()
        invariant
            i <= sounds@.len(),
            forall|j: int| 0 <= j < i ==> (#[trigger] sounds@[j]).key != key,
        decreases sounds@.len() - i,
    {
        if sounds[i].key == key {
            return Some(i);
        }
        i = i + 1;
    }
    None
}

/// Carries out one command on the voices.
fn apply_to(sounds: &mut Vec<Voice>, wave: Wave, command: (usize, bool))
    requires
        sounds_wf(old(sounds)@),
        keys_distinct(old(sounds)@),
        keys_playable(old(sounds)@),
    ensures
        final(sounds)@ == voices_after(old(sounds)@, wave, command),
        sounds_wf(final(sounds)@),
        keys_distinct(final(sounds)@),
        keys_playable(final(sounds)@),
{
    let (key, down) = command;
    if wave_key(key).is_some() {
        return ;
    }
    if !down {
        match find(sounds, key) {
            Some(i) => {
                let voice = &mut sounds[i];
                voice.sound.stop();
            },
            None => {},
        }
        assert(sounds@ =~= with_stopped(old(sounds)@, key));
    } else if key != 0 {
        match find(sounds, key) {
            Some(i) => {
                let voice = &mut sounds[i];
                voice.sound.start();
            },
            None => {
                let mut osc = Osc::new(SAMPLE_RATE, semitones(PLAYER_BASE, key - 1), wave);
                {
                    let _ = osc.connect(
                        Box::new(
                            Envelope::new(
                                SAMPLE_RATE,
                                100_000_000_000,
                                50_000_000_000,
                                800_000_000_000,
                                250_000_000_000,
                            ),
                        ),
                    );
                }
                osc.start();
                sounds.push(Voice { key, sound: osc });
            },
        }
        assert(sounds@ =~= with_pressed(old(sounds)@, spec_fresh(key, wave)));
    }
}

/// Ticks every voice and mixes what they return.
fn mix(sounds: &mut Vec<Voice>) -> (r: Sample)
    requires
        sounds_wf(old(sounds)@),
    ensures
        r == spec_voice_mix(old(sounds)@),
        final(sounds)@ == voices_ticked(old(sounds)@),
        sounds_wf(final(sounds)@),
{
    let count = sounds.len();
    let mut sum: i128 = 0;
    let mut i: usize = 0;
    while i < count
        invariant
            i <= count,
            sounds@.len() == count,
            count == old(sounds)@.len(),
            forall|j: int|
                0 <= j < i ==> (#[trigger] sounds@[j]) == voices_ticked(old(sounds)@)[j],
            forall|j: int| i <= j < count ==> (#[trigger] sounds@[j]) == old(sounds)@[j],
            forall|j: int| 0 <= j < count ==> (#[trigger] sounds@[j]).sound.wf(),
            sum == spec_voice_sum(old(sounds)@, i as nat),
            -i * 0x8000_0000_0000_0000 <= sum <= i * 0x8000_0000_0000_0000,
        decreases count - i,
    {
        let voice = &mut sounds[i];
        let sample = voice.sound.tick();
        sum = sum + sample as i128;
        i = i + 1;
    }
    assert(sounds@ =~= voices_ticked(old(sounds)@));
    if count == 0 {
        0
    } else {
        saturate(sum / (count as i128))
    }
}

impl Player {
    /// The voices in the order in which their keys first went down.
    pub closed spec fn voices(&self) -> Seq<Voice> {
        self.sounds@
    }

    /// The waveform that a new voice gets.
    pub closed spec fn wave(&self) -> Wave {
        self.wave
    }

    /// The channel that the player takes its commands from.
    pub closed spec fn source(&self) -> Receiver<(usize, bool)> {
        self.trigger
    }

    /// Every voice can tick, and no two voices share a key.
    #[verifier::type_invariant]
    spec fn wf(&self) -> bool {
        sounds_wf(self.sounds@) && keys_distinct(self.sounds@) && keys_playable(self.sounds@)
    }

    /// A player without voices that takes its commands from `rx` and makes
    /// sines until told otherwise.
    pub fn new(rx: Receiver<(usize, bool)>) -> (r: Self)
        ensures
            r.source() == rx,
            r.voices() == Seq::<Voice>::empty(),
            r.wave() == Wave::Sine,
    {
        Player { trigger: rx, sounds: Vec::new(), wave: Wave::Sine }
    }

    /// The number of voices.
    pub fn voice_count(&self) -> (r: usize)
        ensures
            r == self.voices().len(),
    {
        self.sounds.len()
    }

    /// The voice that is kept under `key`, if there is one.
    pub fn voice(&self, key: usize) -> (r: Option<&Voice>)
        ensures
            match r {
                Some(voice) => voice.key == key && self.voices().contains(*voice),
                None => !has_key(self.voices(), key),
            },
    {
        match find(&self.sounds, key) {
            Some(i) => Some(&self.sounds[i]),
            None => None,
        }
    }

    /// The waveform that a new voice gets.
    pub fn selected_wave(&self) -> (r: Wave)
        ensures
            r == self.wave(),
    {
        self.wave
    }

    /// Samples per second of the stream.
    pub fn sample_rate(&self) -> (r: u32)
        ensures
            r == SAMPLE_RATE,
    {
        SAMPLE_RATE
    }

    /// The number of channels of the stream: one.
    pub fn channels(&self) -> (r: u16)
        ensures
            r == 1,
    {
        1
    }

    /// The length of the current frame, which the endless stream does not have.
    pub fn current_frame_len(&self) -> (r: Option<usize>)
        ensures
            r is None,
    {
        None
    }

    /// Carries out one command: a key number from 100 to 103 selects the
    /// waveform for the voices to come, a key that goes down starts its voice
    /// again or gets a new one if it has none, and a key that comes up stops
    /// its voice.
    pub fn apply(&mut self, command: (usize, bool))
        ensures
            final(self).voices() == voices_after(old(self).voices(), old(self).wave(), command),
            final(self).wave() == wave_after(old(self).wave(), command),
            final(self).source() == old(self).source(),
            keys_distinct(old(self).voices()) && keys_playable(old(self).voices()),
            keys_distinct(final(self).voices()) && keys_playable(final(self).voices()),
    {
        proof {
            use_type_invariant(&*self);
        }
        let mut sounds: Vec<Voice> = Vec::new();
        std::mem::swap(&mut self.sounds, &mut sounds);
        apply_to(&mut sounds, self.wave, command);
        self.sounds = sounds;
        match wave_key(command.0) {
            Some(wave) => {
                self.wave = wave;
            },
            None => {},
        }
    }

    /// Ticks every voice and mixes what they return: the sum divided by the
    /// number of voices.
    pub fn render(&mut self) -> (r: Sample)
        ensures
            r == spec_voice_mix(old(self).voices()),
            final(self).voices() == voices_ticked(old(self).voices()),
            final(self).wave() == old(self).wave(),
            final(self).source() == old(self).source(),
            keys_distinct(final(self).voices()) && keys_playable(final(self).voices()),
    {
        proof {
            use_type_invariant(&*self);
        }
        let mut sounds: Vec<Voice> = Vec::new();
        std::mem::swap(&mut self.sounds, &mut sounds);
        let sample = mix(&mut sounds);
        self.sounds = sounds;
        sample
    }

    /// Takes what one look at the channel found: a command is carried out, and
    /// there may be more; an empty channel, or one that every sender has
    /// left, changes nothing and ends the taking.
    pub fn take(&mut self, polled: Polled<(usize, bool)>) -> (more: bool)
        ensures
            match polled {
                Polled::Message(command) => more && final(self).voices() == voices_after(
                    old(self).voices(),
                    old(self).wave(),
                    command,
                ) && final(self).wave() == wave_after(old(self).wave(), command),
                Polled::Empty => !more && final(self).voices() == old(self).voices()
                    && final(self).wave() == old(self).wave(),
                Polled::Closed => !more && final(self).voices() == old(self).voices()
                    && final(self).wave() == old(self).wave(),
            },
            final(self).source() == old(self).source(),
            keys_distinct(final(self).voices()) && keys_playable(final(self).voices()),
    {
        proof {
            use_type_invariant(&*self);
        }
        match polled {
            Polled::Message(command) => {
                self.apply(command);
                true
            },
            Polled::Empty => false,
            Polled::Closed => false,
        }
    }

    /// Produces the next sample of the stream: takes commands from the
    /// channel, in the order in which they were sent, until a look finds the
    /// channel empty or left by every sender, and then ticks every voice
    /// once. The stream never ends.
    pub fn next(&mut self) -> (r: Option<Sample>)
        ensures
            final(self).source() == old(self).source(),
            keys_distinct(final(self).voices()) && keys_playable(final(self).voices()),
            exists|commands: Seq<(usize, bool)>|
                r == Some(
                    spec_voice_mix(
                        (#[trigger] after_all(old(self).voices(), old(self).wave(), commands)).0,
                    ),
                ) && final(self).voices() == voices_ticked(
                    after_all(old(self).voices(), old(self).wave(), commands).0,
                ) && final(self).wave() == after_all(
                    old(self).voices(),
                    old(self).wave(),
                    commands,
                ).1,
    {
        let ghost mut commands: Seq<(usize, bool)> = Seq::empty();
        let mut taken: usize = 0;
        let mut more = true;
        while more && taken < usize::MAX
            invariant
                commands.len() == taken,
                self.source() == old(self).source(),
                (self.voices(), self.wave()) == after_all(
                    old(self).voices(),
                    old(self).wave(),
                    commands,
                ),
            decreases usize::MAX - taken + if more { 1int } else { 0int },
        {
            let polled = poll(&self.trigger);
            let ghost found = polled;
            more = self.take(polled);
            proof {
                if let Polled::Message(command) = found {
                    assert(commands.push(command).drop_last() =~= commands);
                    commands = commands.push(command);
                }
            }
            if more {
                taken = taken + 1;
            }
        }
        let sample = self.render();
        Some(sample)
    }
}

} // verus!
