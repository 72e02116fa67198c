use vstd::prelude::*;

use crate::dataset::dof_denominator_spec;
use crate::error::{is_valid_slice, StatsError};
use crate::marker::Marker;

verus! {

/// The denominator of the covariance of two paired series under marker `M`.
///
/// Series of different lengths are refused with [`StatsError::LengthMismatch`];
/// otherwise the result is that of [`is_valid_slice`] on the first series.
pub fn covariance_denominator<T, M: Marker>(xs: &[T], ys: &[T]) -> (r: Result<usize, StatsError>)
    ensures
        xs@.len() != ys@.len() ==> r == Err::<usize, StatsError>(
            StatsError::LengthMismatch { len_a: xs@.len() as usize, len_b: ys@.len() as usize },
        ),
        xs@.len() == ys@.len() ==> r == dof_denominator_spec(xs@.len(), M::DOF_OFFSET as nat),
{
    if xs.len() != ys.len() {
        return Err(StatsError::LengthMismatch { len_a: xs.len(), len_b: ys.len() });
    }
    is_valid_slice::<T, M>(xs)
}

} // verus!
