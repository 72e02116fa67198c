use vstd::prelude::*;

use crate::error::StatsError;

verus! {

/// What converting one value to a primitive float gave.
#[derive(Debug, Clone, Copy, PartialEq, Eq, Structural)]
pub enum ValueStatus {
    /// A finite number.
    Finite,
    /// The value has no representation as a primitive float.
    Unrepresentable,
    /// The conversion gave NaN or an infinity.
    NonFinite,
}

/// The refusal that a failed conversion at `index` gets.
pub open spec fn status_error(status: ValueStatus, index: int) -> StatsError {
    match status {
        ValueStatus::Unrepresentable => StatsError::ConversionError { index: index as usize },
        _ => StatsError::InvalidValue { index: index as usize },
    }
}

/// Decides whether a whole series converts: an empty series is refused with
/// [`StatsError::EmptyIterator`]; otherwise the first value that did not
/// convert to a finite number decides the error ([`StatsError::ConversionError`]
/// when it has no representation, [`StatsError::InvalidValue`] when it is NaN
/// or infinite); a series of finite values passes.
pub fn check_conversions(statuses: &[ValueStatus]) -> (r: Result<(), StatsError>)
    ensures
        statuses@.len() == 0 ==> r == Err::<(), StatsError>(StatsError::EmptyIterator),
        statuses@.len() > 0 && (forall|i: int| 0 <= i < statuses@.len() ==> statuses@[i] == ValueStatus::Finite)
            ==> r == Ok::<(), StatsError>(()),
        forall|i: int|
            0 <= i < statuses@.len() && statuses@[i] != ValueStatus::Finite
                && (forall|k: int| 0 <= k < i ==> statuses@[k] == ValueStatus::Finite)
                ==> r == Err::<(), StatsError>(#[trigger] status_error(statuses@[i], i)),
{
    let n = statuses.len();
    if n == 0 {
        return Err(StatsError::EmptyIterator);
    }
    for index in 0..n
        invariant
            n == statuses@.len(),
            forall|k: int| 0 <= k < index ==> statuses@[k] == ValueStatus::Finite,
    {
        match statuses[index] {
            ValueStatus::Finite => {},
            ValueStatus::Unrepresentable => {
                return Err(StatsError::ConversionError { index });
            },
            ValueStatus::NonFinite => {
                return Err(StatsError::InvalidValue { index });
            },
        }
    }
    Ok(())
}

} // verus!
