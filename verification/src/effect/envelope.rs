//! The attack, decay, sustain, release envelope: a gain that follows key
//! presses without ever jumping.

use crate::fixed::{
    lemma_lerp_between, lemma_lerp_monotone, lemma_unit_ramp_below_one, lemma_unit_ramp_strict,
    lerp, samples_for, spec_lerp, spec_samples_for, Sample, ONE,
};
use vstd::prelude::*;

verus! {

/// The phase an envelope is in. Attack and release remember the gain they
/// started from, so that a ramp always continues from where the gain was.
#[derive(Clone, Copy, Debug, PartialEq, Eq, Structural)]
pub enum EnvelopeState {
    Idle,
    Attack(Sample),
    Decay,
    Sustain,
    Release(Sample),
}

/// An envelope generator. Its gain lies between zero and [`ONE`].
#[derive(Clone, Copy, Debug, PartialEq, Eq)]
pub struct Envelope {
    /// Ticks spent in the current ramp.
    pub ticks: u32,
    pub state: EnvelopeState,
    /// The gain that the last tick emitted.
    pub last_val: Sample,
    pub sustain: Sample,
    pub attack_samps: u32,
    pub decay_samps: u32,
    pub release_samps: u32,
}

/// `level` kept between zero and [`ONE`].
pub open spec fn spec_unit(level: Sample) -> Sample {
    if level < 0 {
        0
    } else if level > ONE {
        ONE
    } else {
        level
    }
}

impl Envelope {
    /// Every level that the envelope holds is a gain, and the tick counter can still grow.
    pub open spec fn wf(&self) -> bool {
        &&& 0 <= self.sustain <= ONE
        &&& 0 <= self.last_val <= ONE
        &&& self.ticks < u32::MAX
        &&& match self.state {
            EnvelopeState::Attack(entry) => 0 <= entry <= ONE,
            EnvelopeState::Release(entry) => 0 <= entry <= ONE,
            _ => true,
        }
    }

    /// The envelope after one tick. The gain that the tick emits is its `last_val`.
    pub open spec fn step(self) -> Envelope {
        match self.state {
            EnvelopeState::Idle => Envelope { ticks: 0, last_val: 0, ..self },
            EnvelopeState::Attack(entry) => if self.ticks + 1 >= self.attack_samps {
                Envelope { ticks: 0, state: EnvelopeState::Decay, last_val: ONE, ..self }
            } else {
                Envelope {
                    ticks: (self.ticks + 1) as u32,
                    last_val: spec_lerp(
                        entry,
                        ONE,
                        (self.ticks + 1) as u32,
                        self.attack_samps,
                    ) as Sample,
                    ..self
                }
            },
            EnvelopeState::Decay => if self.ticks + 1 >= self.decay_samps {
                Envelope {
                    ticks: 0,
                    state: EnvelopeState::Sustain,
                    last_val: self.sustain,
                    ..self
                }
            } else {
                Envelope {
                    ticks: (self.ticks + 1) as u32,
                    last_val: spec_lerp(
                        ONE,
                        self.sustain,
                        (self.ticks + 1) as u32,
                        self.decay_samps,
                    ) as Sample,
                    ..self
                }
            },
            EnvelopeState::Sustain => Envelope { ticks: 0, last_val: self.sustain, ..self },
            EnvelopeState::Release(entry) => if self.ticks + 1 >= self.release_samps || entry
                == 0 {
                Envelope { ticks: 0, state: EnvelopeState::Idle, last_val: 0, ..self }
            } else {
                Envelope {
                    ticks: (self.ticks + 1) as u32,
                    last_val: spec_lerp(
                        entry,
                        0,
                        (self.ticks + 1) as u32,
                        self.release_samps,
                    ) as Sample,
                    ..self
                }
            },
        }
    }

    /// The envelope after `k` ticks with no key event in between.
    pub open spec fn run(self, k: nat) -> Envelope
        decreases k,
    {
        if k == 0 {
            self
        } else {
            self.run((k - 1) as nat).step()
        }
    }

    /// The envelope after a key press: an attack that starts from the current gain.
    pub open spec fn pressed(self) -> Envelope {
        Envelope { ticks: 0, state: EnvelopeState::Attack(self.last_val), ..self }
    }

    /// The envelope after a key release: a release that starts from the current gain.
    pub open spec fn released(self) -> Envelope {
        Envelope { ticks: 0, state: EnvelopeState::Release(self.last_val), ..self }
    }

    /// An idle envelope for `rate` samples per second. The three durations are in
    /// seconds; a `sustain` outside the gains is moved to the nearer end.
    pub fn new(rate: u32, attack: Sample, decay: Sample, sustain: Sample, release: Sample) -> (r:
        Self)
        ensures
            r.wf(),
            r.ticks == 0,
            r.state == EnvelopeState::Idle,
            r.last_val == 0,
            r.sustain == spec_unit(sustain),
            r.attack_samps == spec_samples_for(attack, rate),
            r.decay_samps == spec_samples_for(decay, rate),
            r.release_samps == spec_samples_for(release, rate),
    {
        let level: Sample = if sustain < 0 {
            0
        } else if sustain > ONE {
            ONE
        } else {
            sustain
        };
        Envelope {
            ticks: 0,
            state: EnvelopeState::Idle,
            last_val: 0,
            sustain: level,
            attack_samps: samples_for(attack, rate),
            decay_samps: samples_for(decay, rate),
            release_samps: samples_for(release, rate),
        }
    }

    /// Advances the envelope by one sample and returns the gain for it.
    pub fn tick(&mut self) -> (val: Sample)
        requires
            old(self).wf(),
        ensures
            *final(self) == old(self).step(),
            val == final(self).last_val,
            0 <= val <= ONE,
            final(self).wf(),
    {
        let val: Sample = match self.state {
            EnvelopeState::Idle => {
                self.ticks = 0;
                0
            },
            EnvelopeState::Attack(entry) => {
                self.ticks = self.ticks + 1;
                if self.ticks >= self.attack_samps {
                    self.ticks = 0;
                    self.state = EnvelopeState::Decay;
                    ONE
                } else {
                    lerp(entry, ONE, self.ticks, self.attack_samps)
                }
            },
            EnvelopeState::Decay => {
                self.ticks = self.ticks + 1;
                if self.ticks >= self.decay_samps {
                    self.ticks = 0;
                    self.state = EnvelopeState::Sustain;
                    self.sustain
                } else {
                    lerp(ONE, self.sustain, self.ticks, self.decay_samps)
                }
            },
            EnvelopeState::Sustain => {
                self.ticks = 0;
                self.sustain
            },
            EnvelopeState::Release(entry) => {
                self.ticks = self.ticks + 1;
                if self.ticks >= self.release_samps || entry == 0 {
                    self.ticks = 0;
                    self.state = EnvelopeState::Idle;
                    0
                } else {
                    lerp(entry, 0, self.ticks, self.release_samps)
                }
            },
        };
        self.last_val = val;
        val
    }

    /// Starts an attack from the gain that was emitted last.
    pub fn press(&mut self)
        requires
            old(self).wf(),
        ensures
            *final(self) == old(self).pressed(),
            final(self).wf(),
    {
        self.ticks = 0;
        self.state = EnvelopeState::Attack(self.last_val);
    }

    /// Starts a release from the gain that was emitted last.
    pub fn release(&mut self)
        requires
            old(self).wf(),
        ensures
            *final(self) == old(self).released(),
            final(self).wf(),
    {
        self.ticks = 0;
        self.state = EnvelopeState::Release(self.last_val);
    }

    /// A tick keeps an envelope well formed.
    pub proof fn lemma_step_wf(self)
        requires
            self.wf(),
        ensures
            self.step().wf(),
    {
        match self.state {
            EnvelopeState::Attack(entry) => {
                if self.ticks + 1 < self.attack_samps {
                    lemma_lerp_between(entry, ONE, (self.ticks + 1) as u32, self.attack_samps);
                }
            },
            EnvelopeState::Decay => {
                if self.ticks + 1 < self.decay_samps {
                    lemma_lerp_between(
                        ONE,
                        self.sustain,
                        (self.ticks + 1) as u32,
                        self.decay_samps,
                    );
                }
            },
            EnvelopeState::Release(entry) => {
                if self.ticks + 1 < self.release_samps {
                    lemma_lerp_between(entry, 0, (self.ticks + 1) as u32, self.release_samps);
                }
            },
            _ => {},
        }
    }

    /// However many ticks pass, the gain stays between zero and one and the
    /// envelope stays well formed.
    pub proof fn law_gain_stays_within_bounds(self, k: nat)
        requires
            self.wf(),
        ensures
            self.run(k).wf(),
            0 <= self.run(k).last_val <= ONE,
        decreases k,
    {
        if k > 0 {
            self.law_gain_stays_within_bounds((k - 1) as nat);
            self.run((k - 1) as nat).lemma_step_wf();
        }
    }

    /// Running `i` ticks and then `j` more is running `i + j` ticks.
    pub proof fn lemma_run_split(self, i: nat, j: nat)
        ensures
            self.run(i).run(j) == self.run(i + j),
        decreases j,
    {
        if j > 0 {
            self.lemma_run_split(i, (j - 1) as nat);
            assert(self.run(i + j) == self.run((i + j - 1) as nat).step());
        }
    }

    /// While an attack lasts, the gain is the point of the line from the entry
    /// level to one that the tick count gives.
    pub proof fn lemma_attack_run(self, k: nat)
        requires
            self.wf(),
            self.state is Attack,
            self.ticks == 0,
            k < self.attack_samps,
        ensures
            self.run(k) == if k == 0 {
                self
            } else {
                (Envelope {
                    ticks: k as u32,
                    last_val: spec_lerp(self.state->Attack_0, ONE, k as u32, self.attack_samps) as Sample,
                    ..self
                })
            },
        decreases k,
    {
        if k > 0 {
            self.lemma_attack_run((k - 1) as nat);
            lemma_lerp_between(self.state->Attack_0, ONE, k as u32, self.attack_samps);
        }
    }

    /// While a decay lasts, the gain is the point of the line from one to the
    /// sustain level that the tick count gives.
    pub proof fn lemma_decay_run(self, k: nat)
        requires
            self.wf(),
            self.state is Decay,
            self.ticks == 0,
            k < self.decay_samps,
        ensures
            self.run(k) == if k == 0 {
                self
            } else {
                (Envelope {
                    ticks: k as u32,
                    last_val: spec_lerp(ONE, self.sustain, k as u32, self.decay_samps) as Sample,
                    ..self
                })
            },
        decreases k,
    {
        if k > 0 {
            self.lemma_decay_run((k - 1) as nat);
            lemma_lerp_between(ONE, self.sustain, k as u32, self.decay_samps);
        }
    }

    /// While a release from a level above zero lasts, the gain is the point of the
    /// line from that level to zero that the tick count gives.
    pub proof fn lemma_release_run(self, k: nat)
        requires
            self.wf(),
            self.state is Release,
            self.state->Release_0 != 0,
            self.ticks == 0,
            k < self.release_samps,
        ensures
            self.run(k) == if k == 0 {
                self
            } else {
                (Envelope {
                    ticks: k as u32,
                    last_val: spec_lerp(self.state->Release_0, 0, k as u32, self.release_samps) as Sample,
                    ..self
                })
            },
        decreases k,
    {
        if k > 0 {
            self.lemma_release_run((k - 1) as nat);
            lemma_lerp_between(self.state->Release_0, 0, k as u32, self.release_samps);
        }
    }

    /// An idle envelope stays idle and emits zero.
    pub proof fn lemma_idle_run(self, k: nat)
        requires
            self.state is Idle,
            k >= 1,
        ensures
            self.run(k) == (Envelope { ticks: 0, last_val: 0, ..self }),
        decreases k,
    {
        if k > 1 {
            self.lemma_idle_run((k - 1) as nat);
        } else {
            assert(self.run(0) == self);
        }
    }

    /// A fresh attack from zero that lasts `attack_samps` ticks emits a strictly
    /// rising sequence of gains and ends on exactly one, where the decay begins,
    /// however long the attack is.
    pub proof fn law_attack_rises_to_one(self)
        requires
            self.wf(),
            self.state == EnvelopeState::Attack(0),
            self.ticks == 0,
            1 <= self.attack_samps,
        ensures
            self.run(self.attack_samps as nat).last_val == ONE,
            self.run(self.attack_samps as nat).state == EnvelopeState::Decay,
            self.run(self.attack_samps as nat).ticks == 0,
            forall|k: nat|
                1 <= k < self.attack_samps ==> (#[trigger] self.run(k)).last_val == (ONE * k)
                    / (self.attack_samps as int),
            forall|i: nat, j: nat|
                1 <= i < j <= self.attack_samps ==> (#[trigger] self.run(i)).last_val < (
                #[trigger] self.run(j)).last_val,
    {
        let n = self.attack_samps as nat;
        self.lemma_attack_run((n - 1) as nat);
        assert(self.run(n) == self.run((n - 1) as nat).step());
        assert forall|k: nat| 1 <= k < n implies (#[trigger] self.run(k)).last_val == (ONE * k) / (
        n as int) by {
            self.lemma_attack_run(k);
            lemma_lerp_between(0, ONE, k as u32, self.attack_samps);
            assert(ONE * k >= 0) by (nonlinear_arith)
                requires
                    k >= 0,
            ;
            assert((ONE - 0) * (k as u32) == ONE * k);
        }
        assert forall|i: nat, j: nat| 1 <= i < j <= n implies (#[trigger] self.run(i)).last_val < (
        #[trigger] self.run(j)).last_val by {
            self.lemma_attack_run(i);
            lemma_lerp_between(0, ONE, i as u32, self.attack_samps);
            lemma_unit_ramp_below_one(i as u32, self.attack_samps);
            if j < n {
                self.lemma_attack_run(j);
                lemma_lerp_between(0, ONE, j as u32, self.attack_samps);
                lemma_unit_ramp_strict(i as u32, self.attack_samps);
                lemma_lerp_monotone(0, ONE, (i + 1) as u32, j as u32, self.attack_samps);
            }
        }
    }

    /// A fresh decay reaches exactly the sustain level after `decay_samps` ticks,
    /// where the envelope starts to sustain; until then the gain never rises and
    /// stays between the sustain level and one.
    pub proof fn law_decay_falls_to_sustain(self)
        requires
            self.wf(),
            self.state == EnvelopeState::Decay,
            self.ticks == 0,
            self.decay_samps >= 1,
        ensures
            self.run(self.decay_samps as nat).last_val == self.sustain,
            self.run(self.decay_samps as nat).state == EnvelopeState::Sustain,
            forall|k: nat|
                1 <= k < self.decay_samps ==> self.sustain <= (#[trigger] self.run(k)).last_val
                    <= ONE,
            forall|i: nat, j: nat|
                1 <= i <= j <= self.decay_samps ==> (#[trigger] self.run(i)).last_val >= (
                #[trigger] self.run(j)).last_val,
    {
        let n = self.decay_samps as nat;
        self.lemma_decay_run((n - 1) as nat);
        assert(self.run(n) == self.run((n - 1) as nat).step());
        assert forall|k: nat| 1 <= k < n implies self.sustain <= (#[trigger] self.run(k)).last_val
            <= ONE by {
            self.lemma_decay_run(k);
            lemma_lerp_between(ONE, self.sustain, k as u32, self.decay_samps);
        }
        assert forall|i: nat, j: nat| 1 <= i <= j <= n implies (#[trigger] self.run(i)).last_val
            >= (#[trigger] self.run(j)).last_val by {
            if i < n {
                self.lemma_decay_run(i);
                lemma_lerp_between(ONE, self.sustain, i as u32, self.decay_samps);
                if j < n {
                    self.lemma_decay_run(j);
                    lemma_lerp_between(ONE, self.sustain, j as u32, self.decay_samps);
                    lemma_lerp_monotone(ONE, self.sustain, i as u32, j as u32, self.decay_samps);
                }
            }
        }
    }

    /// A sustaining envelope emits its sustain level on every tick, for as long
    /// as no key event arrives.
    pub proof fn law_sustain_holds(self, k: nat)
        requires
            self.state == EnvelopeState::Sustain,
            k >= 1,
        ensures
            self.run(k).last_val == self.sustain,
            self.run(k).state == EnvelopeState::Sustain,
            self.run(k) == (Envelope { ticks: 0, last_val: self.sustain, ..self }),
        decreases k,
    {
        if k > 1 {
            self.law_sustain_holds((k - 1) as nat);
        } else {
            assert(self.run(0) == self);
        }
    }

    /// A fresh release is at exactly zero and idle once `release_samps` ticks
    /// have passed (and at least one), and stays there; until then the gain never
    /// rises. A release that starts from zero is there after one tick, however
    /// long the release is.
    pub proof fn law_release_falls_to_zero(self, k: nat)
        requires
            self.wf(),
            self.state is Release,
            self.ticks == 0,
            k >= 1,
        ensures
            k >= self.release_samps || self.state->Release_0 == 0 ==> self.run(k).last_val == 0
                && self.run(k).state == EnvelopeState::Idle,
            self.run(k).last_val <= self.state->Release_0,
            self.run(k).last_val <= self.run((k - 1) as nat).last_val || k == 1,
    {
        let entry = self.state->Release_0;
        let n = self.release_samps as nat;
        if entry == 0 || n <= 1 {
            assert(self.run(1) == self.run(0).step());
            assert(self.run(1).state == EnvelopeState::Idle);
            if k > 1 {
                self.lemma_run_split(1, (k - 1) as nat);
                self.run(1).lemma_idle_run((k - 1) as nat);
                if k > 2 {
                    self.lemma_run_split(1, (k - 2) as nat);
                    self.run(1).lemma_idle_run((k - 2) as nat);
                }
            }
        } else if k < n {
            self.lemma_release_run(k);
            self.lemma_release_run((k - 1) as nat);
            lemma_lerp_between(entry, 0, k as u32, self.release_samps);
            if k > 1 {
                lemma_lerp_between(entry, 0, (k - 1) as u32, self.release_samps);
                lemma_lerp_monotone(entry, 0, (k - 1) as u32, k as u32, self.release_samps);
            }
        } else {
            self.lemma_release_run((n - 1) as nat);
            lemma_lerp_between(entry, 0, (n - 1) as u32, self.release_samps);
            assert(self.run(n) == self.run((n - 1) as nat).step());
            assert(self.run(n).state == EnvelopeState::Idle);
            if k > n {
                self.lemma_run_split(n, (k - n) as nat);
                self.run(n).lemma_idle_run((k - n) as nat);
                if k > n + 1 {
                    self.lemma_run_split(n, (k - 1 - n) as nat);
                    self.run(n).lemma_idle_run((k - 1 - n) as nat);
                }
            }
        }
    }

    /// A key press at any moment, in the middle of a decay or a release too,
    /// starts the attack from the gain that was emitted last: the next gain is
    /// not below it, and above it by no more than one step of the new ramp.
    pub proof fn law_press_continues(self)
        requires
            self.wf(),
        ensures
            self.pressed().state == EnvelopeState::Attack(self.last_val),
            self.pressed().step().last_val - self.last_val == (ONE - self.last_val) / (
            if self.attack_samps <= 1 {
                1
            } else {
                self.attack_samps as int
            }),
    {
        let n = self.attack_samps;
        if n > 1 {
            lemma_lerp_between(self.last_val, ONE, 1, n);
            assert((ONE - self.last_val) * 1u32 == ONE - self.last_val);
        }
    }

    /// A key release at any moment starts the release from the gain that was
    /// emitted last: the next gain is not above it, and below it by no more than
    /// one step of the new ramp, unless the release ends at once.
    pub proof fn law_release_continues(self)
        requires
            self.wf(),
            self.release_samps > 1,
        ensures
            self.released().state == EnvelopeState::Release(self.last_val),
            self.last_val - self.released().step().last_val == (self.last_val as int) / (
            self.release_samps as int),
    {
        let n = self.release_samps;
        lemma_lerp_between(self.last_val, 0, 1, n);
        assert((0 - self.last_val) * 1u32 == -self.last_val);
        assert(-(-self.last_val) == self.last_val);
    }
}

} // verus!
