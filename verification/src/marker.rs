use vstd::prelude::*;

mod sealed;

verus! {

/// Compile-time marker encoding **sample** or **population** semantics.
///
/// This trait is sealed: only [`Sample`] and [`Population`] implement it. The associated constant
/// `DOF_OFFSET` drives the Bessel correction of variance and covariance
/// denominators:
///
/// | Marker       | `DOF_OFFSET` | Variance denominator |
/// |--------------|--------------|----------------------|
/// | `Sample`     | `1`          | `n − 1`              |
/// | `Population` | `0`          | `n`                  |
pub trait Marker: sealed::Sealed + core::fmt::Debug + Clone + Copy + Send + Sync + 'static {
    /// Subtracted from `n` when computing variance / covariance denominators.
    const DOF_OFFSET: usize;

    /// Human-readable label ("Sample" or "Population").
    const NAME: &'static str;

    /// The correction is at most one degree of freedom.
    proof fn lemma_dof_offset_bound()
        ensures
            Self::DOF_OFFSET <= 1,
    ;
}

/// Marker indicating the dataset is a **sample** from a larger population.
///
/// Variance and covariance use Bessel's correction: divide by `n − 1`.
#[derive(Debug, Clone, Copy, PartialEq, Eq, Hash)]
pub struct Sample;

impl sealed::Sealed for Sample {

}

impl Marker for Sample {
    const DOF_OFFSET: usize = 1;

    const NAME: &'static str = "Sample";

    proof fn lemma_dof_offset_bound() {
    }
}

impl Sample {
    /// A sample corrects by one degree of freedom and is named `"Sample"`.
    pub proof fn lemma_constants()
        ensures
            <Sample as Marker>::DOF_OFFSET == 1,
            <Sample as Marker>::NAME == "Sample",
    {
    }
}

/// Marker indicating the dataset **is** the entire population.
///
/// Variance and covariance divide by `n` with no correction.
#[derive(Debug, Clone, Copy, PartialEq, Eq, Hash)]
pub struct Population;

impl sealed::Sealed for Population {

}

impl Marker for Population {
    const DOF_OFFSET: usize = 0;

    const NAME: &'static str = "Population";

    proof fn lemma_dof_offset_bound() {
    }
}

impl Population {
    /// A population needs no correction and is named `"Population"`.
    pub proof fn lemma_constants()
        ensures
            <Population as Marker>::DOF_OFFSET == 0,
            <Population as Marker>::NAME == "Population",
    {
    }
}

} // verus!
