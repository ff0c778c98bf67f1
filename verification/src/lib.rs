//! Reduction of one dimension of a dense tensor by the naive strategy: one
//! worker per output element, each scanning its lane from the first entry to
//! the last.
//!
//! An operation is an accumulator with a seed, a step and a final write
//! ([`naive::base::ReduceDimNaive`]); the strategy ([`naive::kernel`]) knows
//! nothing else of it. Elements are fixed-width integers ([`element`]);
//! floating-point tensors take part in reductions by order through integer keys
//! ([`ieee`]). What holds of every reduction is proved in [`laws`] and
//! [`layout`].

pub mod cast;
pub mod element;
pub mod ieee;
pub mod laws;
pub mod layout;
pub mod naive;
pub mod primitives;
pub mod telemetry;
pub mod tensor;
