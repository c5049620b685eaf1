//! Inference for a fixed three-layer feed-forward network.
//!
//! Every scalar is an IEEE-754 binary32 value carried as its bit pattern
//! (`u32`), so that the shape and sequencing logic can be verified while the
//! floating-point arithmetic itself is delegated to a software
//! implementation of the same format.
use vstd::prelude::*;

pub mod matrix;
pub mod model;
pub mod scalar;

verus! {

/// Everything that can go wrong while evaluating or normalizing.
#[derive(Debug, PartialEq)]
pub enum Error {
    /// A byte stream could not be decoded into a model document.
    Decode(String),
    /// Two matrix operands do not fit each other; carries the two sizes
    /// that were compared.
    DimensionMismatch { expected: usize, actual: usize },
    /// A field of the model has no standard deviation on record.
    MissingStdData(String),
    /// A field of the model has no mean on record.
    MissingMeanData(String),
}

} // verus!
