//! Random strings over configurable character classes.
//!
//! A [`RandStrBuilder`] collects which classes of characters may appear,
//! which of them must appear, and how long the string is to be. Building it
//! gives a [`RandStr`], which hands out one fresh string per call of
//! [`RandStr::generate`].
//!
//! Everything but the random source itself is verified: the class tables, the
//! merge of the chosen classes into one alphabet, the checks made when a
//! builder is compiled, and the sampling procedure around the random draws.

pub mod alphabet;
pub mod builder;
pub mod error;
pub mod generator;
pub mod laws;
pub mod random;
pub mod sampling;
pub mod sorting;
pub mod text;

pub use alphabet::{AlphabetRegistry, CharClass};
pub use builder::{randstr, RandStrBuilder};
pub use error::Error;
pub use generator::RandStr;
