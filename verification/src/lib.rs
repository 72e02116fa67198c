//! # airborne
//!
//! A heavily-typed statistics and finance library.

pub mod capital;
pub mod compute;
pub mod dataset;
pub mod error;
pub mod finance;
pub mod marker;
pub mod numeric;
pub mod stats;
pub mod types;

pub use dataset::{DataSet, PopulationData, SampleData};
pub use error::StatsError;
pub use marker::{Marker, Population, Sample};
pub use numeric::Numeric;
