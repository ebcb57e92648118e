//! Resource handles.

use vstd::prelude::*;

verus! {

/// A resource identifier: an open object inside exactly one scheme.
#[derive(Copy, Clone, Debug, PartialEq, Eq, Structural)]
pub struct Resource {
    /// The scheme that this resource refers to.
    pub scheme: usize,
    /// The number the scheme uses to refer to this resource.
    pub number: usize,
}

} // verus!
