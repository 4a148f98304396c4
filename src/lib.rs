//! Generators for useful values: random bytes, keys, UUIDs, digits of pi,
//! dates, dice and range rolls, Unicode shortcodes and lorem ipsum text.
//!
//! Every generator that needs randomness draws 64-bit words from an
//! explicit [`entropy::Entropy`] source. The source records the words it
//! hands out, so the contracts of bytes, keys, dice and ranges state their
//! results in terms of the words that were drawn.

pub mod bytes;
pub mod chars;
pub mod cli;
pub mod date;
pub mod entropy;
pub mod error;
pub mod key;
pub mod lorem;
pub mod output;
pub mod patterns;
pub mod pi;
pub mod pi_digits;
pub mod rng;
pub mod rng_spec;
pub mod text;
pub mod uuid;

pub use error::GivError;
