//! What the library reports when it declines to work.

use vstd::prelude::*;

verus! {

/// Why a construction or a trace was refused.
#[derive(Clone, Copy, PartialEq, Eq, Structural, Debug)]
pub enum SpiroError {
    /// A circle was given a radius that is zero or negative.
    InvalidGeometry,
    /// A table of directions has the wrong length or holds an entry that is
    /// not a unit direction.
    InvalidDirections,
    /// The angular step is zero or negative, so the simulation would never
    /// advance.
    NonProgressing,
    /// The curve did not return to its start within the step budget.
    DidNotClose,
}

} // verus!
