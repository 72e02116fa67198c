use airborne::compute::check_conversions;
use airborne::compute::ValueStatus::{Finite, NonFinite, Unrepresentable};
use airborne::error::{check_empty_set, is_valid_slice};
use airborne::stats::covariance_denominator;
use airborne::{Population, Sample, StatsError};

#[test]
fn conversions_of_an_empty_series_are_refused() {
    assert_eq!(check_conversions(&[]), Err(StatsError::EmptyIterator));
}

#[test]
fn conversions_report_the_first_failure() {
    assert_eq!(check_conversions(&[Finite, Finite]), Ok(()));
    assert_eq!(
        check_conversions(&[Finite, NonFinite, Unrepresentable]),
        Err(StatsError::InvalidValue { index: 1 })
    );
    assert_eq!(
        check_conversions(&[Finite, Finite, Unrepresentable, NonFinite]),
        Err(StatsError::ConversionError { index: 2 })
    );
}

#[test]
fn empty_set_check() {
    let empty: [f64; 0] = [];
    assert_eq!(check_empty_set(&empty), Err(StatsError::EmptyIterator));
    assert_eq!(check_empty_set(&[1.0]), Ok(()));
}

#[test]
fn slice_degrees_of_freedom() {
    let xs = [1.0, 2.0, 3.0];
    assert_eq!(is_valid_slice::<f64, Sample>(&xs), Ok(2));
    assert_eq!(is_valid_slice::<f64, Population>(&xs), Ok(3));
    assert_eq!(
        is_valid_slice::<f64, Sample>(&xs[..1]),
        Err(StatsError::InsufficientData { needed: 2, got: 1 })
    );
}

#[test]
fn covariance_needs_paired_series() {
    let xs = [1.0, 2.0, 3.0];
    let ys = [4.0, 5.0];
    assert_eq!(
        covariance_denominator::<f64, Sample>(&xs, &ys),
        Err(StatsError::LengthMismatch { len_a: 3, len_b: 2 })
    );
    assert_eq!(covariance_denominator::<f64, Sample>(&xs, &xs), Ok(2));
    assert_eq!(
        covariance_denominator::<f64, Population>(&[], &[]),
        Err(StatsError::InsufficientData { needed: 1, got: 0 })
    );
}
