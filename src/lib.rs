//! The MD5 message digest (RFC 1321), with every stage of the pipeline
//! proved against a mathematical model of the algorithm.
//!
//! The stages are: padding (`step_one`), length append (`step_two`),
//! buffer initialisation (`step_three`), block compression
//! (`StepFour::step_four`) and hex rendering (`step_five`); `md5_hex`
//! runs them in order.
pub mod words;
pub mod padding;
pub mod buffer;
pub mod compress;
pub mod render;
pub mod digest;
