//! Small verified building blocks: arithmetic helpers, a stack, a word
//! counter, and the scheduling decisions of a simulated task dispatcher.

pub mod numbers;
pub mod words;
pub mod scheduling;
pub mod metrics;
mod rng;
pub mod experiment;
pub mod stack;
pub mod mapping;
pub mod guessing;
pub mod workers;
pub mod file_ops;
