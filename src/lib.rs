//! A verified interpreter for a 32-bit register machine with fourteen
//! operators, eight registers and a heap of word arrays.
//!
//! `decode` extracts instruction fields, `machine` holds the state and the
//! step function, `run` drives a machine over an in-memory input, `image`
//! reads program images, and `laws` proves properties of the step model.

pub mod decode;
pub mod image;
pub mod laws;
pub mod machine;
pub mod run;
