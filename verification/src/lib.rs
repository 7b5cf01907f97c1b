//! Verified core of a small convolutional image classifier.
//!
//! The crate covers the parts of a train-and-classify pipeline whose
//! correctness is a matter of logic rather than of floating-point tensor
//! execution: configuration validation, architecture shape and parameter
//! schema inference, batching of labeled items, the binary artifact format
//! for configurations and parameter snapshots, the seeded batch schedule,
//! the trainer state machine, prediction by arg-max and accuracy reporting.
//! The numerical runtime (tensor kernels, reverse-mode differentiation) is
//! an external collaborator driven by an unverified shell around this crate.

pub mod codec;
pub mod config;
pub mod data;
pub mod error;
pub mod inference;
pub mod metrics;
pub mod model;
pub mod record;
pub mod schedule;
pub mod shape;
pub mod snapshot;
pub mod trainer;
