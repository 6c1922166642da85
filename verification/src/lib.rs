//! A small keyboard synthesizer engine in fixed-point arithmetic.
//!
//! Samples, gains, frequencies and durations are integers that count 10^-12:
//! of full scale, of a hertz, of a second ([`fixed::Sample`]).
//! Phases are 32-bit fractions of a turn. Every node of the signal graph
//! advances by one sample per tick, and nothing in a tick allocates or waits.
//!
//! - [`fixed`]: the arithmetic.
//! - [`waveform`]: the sine and the band-limited saw, square and triangle.
//! - [`effect`]: the attack, decay, sustain, release envelope by itself.
//! - [`nodes`]: oscillators and envelopes as nodes of a graph with named slots.
//! - [`synth`]: a pool of voices that follows commands from a channel.
//! - [`sound`]: sounds with an effect behind them, and a player that makes a
//!   voice for every key that goes down.
//! - [`app`]: the keyboard as a control surface.
//! - [`channel`]: the look at the channel that commands arrive on.

pub mod app;
pub mod channel;
pub mod effect;
pub mod fixed;
pub mod nodes;
pub mod sound;
pub mod synth;
pub mod waveform;
