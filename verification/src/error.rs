use vstd::prelude::*;

use crate::dataset::dof_denominator_spec;
use crate::marker::Marker;

verus! {

/// Errors that the checks of this library report. Each variant carries only
/// integers: the positions and counts that explain the refusal.
#[derive(Debug, Clone, Copy, PartialEq, Eq, Structural)]
pub enum StatsError {
    /// The input holds no element.
    EmptyIterator,
    /// Fewer elements than the computation needs.
    InsufficientData { needed: usize, got: usize },
    /// Two paired inputs differ in length.
    LengthMismatch { len_a: usize, len_b: usize },
    /// The value at `index` cannot be represented as a primitive number.
    ConversionError { index: usize },
    /// The value at `index` is NaN or infinite.
    InvalidValue { index: usize },
    /// The data is constant: its range or variance is zero.
    ZeroVariance,
}

/// Refuses an empty slice with [`StatsError::EmptyIterator`].
pub fn check_empty_set<T>(s: &[T]) -> (r: Result<(), StatsError>)
    ensures
        s@.len() == 0 ==> r == Err::<(), StatsError>(StatsError::EmptyIterator),
        s@.len() > 0 ==> r == Ok::<(), StatsError>(()),
{
    if s.len() == 0 {
        return Err(StatsError::EmptyIterator);
    }
    Ok(())
}

/// The degrees-of-freedom denominator of a series under marker `M`:
/// `len − M::DOF_OFFSET`, or [`StatsError::InsufficientData`] when the series
/// is not longer than the offset.
pub fn is_valid_slice<T, M: Marker>(data: &[T]) -> (r: Result<usize, StatsError>)
    ensures
        r == dof_denominator_spec(data@.len(), M::DOF_OFFSET as nat),
{
    let n = data.len();
    let offset = M::DOF_OFFSET;
    proof {
        M::lemma_dof_offset_bound();
    }
    if n <= offset {
        return Err(StatsError::InsufficientData { needed: offset + 1, got: n });
    }
    Ok(n - offset)
}

} // verus!
