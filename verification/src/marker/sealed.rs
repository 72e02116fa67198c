use vstd::prelude::*;

verus! {

/// Implemented only by the markers of this crate.
pub trait Sealed {

}

} // verus!
