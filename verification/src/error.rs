//! What can go wrong while a group is built or a pair is classified.
use vstd::prelude::*;
use crate::affine_space::{Affine3, Mat3};

verus! {

/// The ways in which an operation of the library can fail.
#[derive(Debug, Clone, Copy, PartialEq, Eq)]
pub enum Error {
    /// A text that should be a list of operations is not one.
    MalformedText,
    /// A text that should be a rational number is not one.
    MalformedNumber,
    /// The linear part of a would-be symmetry operation does not have
    /// determinant `+1` or `-1`.
    InvalidIsometry(Affine3),
    /// A would-be point group element does not have determinant `+1` or `-1`.
    InvalidPointGroupElement(Mat3),
    /// The generators did not close under composition within the ceiling on
    /// the number of passes.
    ClosureDivergence,
    /// The operations that fix a position do not form a group.
    InconsistentStabilizer,
    /// A bound of a supercell is not positive.
    InvalidBounds,
    /// An exact intermediate result cannot be stored.
    Overflow,
}

} // verus!
