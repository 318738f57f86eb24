//! Sampling of a signal over one normalized period.
//!
//! [`synth`] cuts the period `[0, 1)` into `n` evenly spaced time positions,
//! asks a caller-supplied amplitude function for one value at each of them,
//! and returns the values in order. The amplitude function receives exclusive
//! access to a caller-owned state on every call, so it can carry an oscillator
//! phase, a filter memory or an envelope from one sample to the next.
//!
//! Time positions are exact: position `i` of `n` is the rational `i / n`,
//! held as the pair of its index and the sample count ([`TimePos`]). Turning
//! a position into a machine number is left to the amplitude function, which
//! is free to divide, or to accumulate a step in its state.
//!
//! The amplitude type is generic. Values are handed through untouched: the
//! sampler neither inspects nor clamps them.

pub mod sampler;
pub mod time;

pub use sampler::synth;
pub use time::TimePos;
