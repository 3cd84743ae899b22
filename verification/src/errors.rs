use vstd::prelude::*;

verus! {

/// Errors reported by indicator constructors.
#[derive(Debug, Clone, Copy, PartialEq, Eq, Structural)]
pub enum TaError {
    /// A duration, width or count parameter is outside its accepted range.
    InvalidParameter,
}

} // verus!
