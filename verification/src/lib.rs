//! Offscreen STL-thumbnail pipeline: mesh ingestion, geometric
//! normalization, and pixel-buffer capture logic.
//!
//! Scalar mesh coordinates are IEEE-754 binary32 values, carried
//! everywhere as their `u32` bit patterns; the `scalar` module gives
//! them their ordering and classification.

use vstd::prelude::*;

pub mod capture;
pub mod mesh;
pub mod normalize;
pub mod scalar;
pub mod text;

verus! {

/// Why a mesh byte stream was rejected.
#[derive(Clone, Copy, Debug, PartialEq, Eq, Structural)]
pub enum ParseError {
    /// The stream is shorter than the fixed binary header.
    HeaderTooShort,
    /// The declared triangle count needs more bytes than remain.
    Truncated,
    /// A parsed coordinate is not a finite value.
    NonFinite,
    /// A text facet block does not follow the grammar.
    Malformed,
}

/// Why a pixel readback was rejected.
#[derive(Clone, Copy, Debug, PartialEq, Eq, Structural)]
pub enum ReadbackError {
    /// The buffer length does not match width * height * 4.
    SizeMismatch,
}

} // verus!
