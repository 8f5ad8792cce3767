//! Fixed-point core of a celestial-position pipeline.
//!
//! Positions of the major planets and of bodies given by classical orbital
//! elements are assembled from periodic series, frame transforms and a
//! light-time correction.  The arithmetic of that pipeline — weighted sums of
//! series terms, the Horner combination over time, rectangular offsets, the
//! Gauss direction-cosine magnitudes and the light-time estimate — is carried
//! out here over scaled integers (nine decimal places per unit), so that every
//! step has an exact, machine-checked contract.  Trigonometric values enter as
//! arguments in the same scale; evaluating the trigonometric functions
//! themselves is left to the unverified front end.

use vstd::prelude::*;

pub mod fixed;
pub mod lighttime;
pub mod planet;
pub mod series;
pub mod transform;

verus! {

/// Failures that the position pipeline reports instead of returning a
/// silently wrong coordinate.
#[derive(Clone, Copy, PartialEq, Eq, Structural, Debug)]
pub enum Error {
    /// A body has no coefficient table bound to it; evaluating its position
    /// must fail rather than fall back to a zero coordinate.
    Data,
    /// Every orbital-plane direction cosine vanished at once, so the
    /// orientation of the orbital plane is undefined.
    DegenerateOrbit,
}

} // verus!
