//! Randomness generation: bit sources, and the sampling operations built on them.
//!
//! A bit source ([`RngCore`]) is modelled as a deterministic state machine: each
//! operation's output and successor state are spec functions of the current state.
//! Every sampling operation of [`Rng`] is stated over that model, so its result is a
//! function of the source's state and its parameters alone.
pub mod error;
pub mod source;
pub mod mock;
pub mod uniform;
pub mod distributions;
pub mod fill;
pub mod rng;
pub mod seed;
mod os;
pub mod prng;
pub mod facade;

pub use error::{Error, ErrorKind};
pub use source::RngCore;
pub use mock::StepRng;
pub use uniform::SampleUniform;
pub use distributions::{Distribution, Standard, Bernoulli, ALWAYS_TRUE};
pub use fill::AsByteSliceMut;
pub use rng::Rng;
pub use seed::{SeedableRng, FromEntropy};
pub use prng::XorShiftRng;
pub use facade::{random, ThreadRng};
