use airborne::marker::{Marker, Population, Sample};
use airborne::{DataSet, PopulationData, SampleData, StatsError};

#[test]
fn test_new_success() {
    let data = [1, 2, 3].into_iter();
    let ds = DataSet::<i32, Population>::from_iter(data);
    assert_eq!(ds.len(), 3);
    assert!(!ds.is_empty());
}

#[test]
fn test_from() {
    let my_slice = &[1.0, 2.1];
    let my_array = [1.0];

    let _a: DataSet<f64, Sample> = [1.0, 2.0, 3.0].into(); // .into() via From<[T;N]>
    let _b: DataSet<f64, Sample> = vec![1.0].into(); // .into() via From<Vec>
    let _c: DataSet<f64, Sample> = DataSet::from([1.0, 2.0, 3.0]); // [T; N]
    let _d: DataSet<f64, Sample> = DataSet::from(&[1.0, 2.0, 3.0]); // &[T; N]
    let _e: DataSet<f64, Sample> = DataSet::from(vec![1.0, 2.0, 3.0]); // Vec<T>
    let _f: DataSet<f64, Sample> = DataSet::from(my_slice); // &[T; N]
    let _g: DataSet<f64, Sample> = DataSet::from_slice(&my_array); // any slice
    let _h = DataSet::<i32, Population>::from(&[1, 2, 3]);
}

#[test]
fn test_push_and_extend() {
    let mut ds = DataSet::<i32, Sample>::from([1]);
    ds.push(2);
    ds.extend(&[3, 4]);
    assert_eq!(ds.into_vec(), vec![1, 2, 3, 4]);
}

#[test]
fn test_dof_denominator() {
    // Population DOF_OFFSET is 0
    let pop = DataSet::<i32, Population>::from([10, 20]);
    assert_eq!(pop.dof_denominator().unwrap(), 2);

    // Sample DOF_OFFSET is 1
    let samp = DataSet::<i32, Sample>::from([10, 20]);
    assert_eq!(samp.dof_denominator().unwrap(), 1);

    // InsufficientData error
    let tiny_samp = DataSet::<i32, Sample>::from([10]);
    assert!(tiny_samp.dof_denominator().is_err());
}

#[test]
fn test_conversions_reinterpret() {
    let ds = DataSet::<i32, Population>::from([1, 2]);

    let sample = ds.into_sample();
    assert_eq!(sample.marker_name(), "Sample");

    let pop = sample.into_population();
    assert_eq!(pop.marker_name(), "Population");

    let s_clone = pop.as_sample_clone();
    let p_clone = s_clone.as_population_clone();

    assert_eq!(p_clone.len(), 2);
}

#[test]
fn test_formatting_traits() {
    let ds = DataSet::<i32, Population>::from([1, 2]);

    // Debug-style rendering
    let debug_str = ds.debug_string();
    assert!(debug_str.contains("DataSet<Population>([1, 2])"));

    // Display-style rendering
    let display_str = ds.display_string();
    assert_eq!(display_str, "[1, 2]");
}

#[test]
fn test_deref_and_slices() {
    let mut ds = DataSet::<i32, Population>::from([1, 2, 3]);

    // Deref to slice
    assert_eq!(ds.as_slice(), &[1, 2, 3]);
    assert_eq!(ds.len(), 3);

    // DerefMut
    ds[0] = 10;
    assert_eq!(ds[0], 10);

    // AsRef
    let r: &[i32] = ds.as_ref();
    assert_eq!(r[0], 10);
}

#[test]
fn test_iterators() {
    let ds = DataSet::<i32, Population>::from([1, 2]);

    for val in &ds {
        assert!(*val > 0);
    }

    let vec: Vec<i32> = ds.into_iter().collect();
    assert_eq!(vec, vec![1, 2]);
}

#[test]
fn test_into_vec() {
    let ds = DataSet::<i32, Population>::from([1, 2]);
    let v = ds.into_vec();
    assert_eq!(v, vec![1, 2]);
}

#[test]
fn marker_name_t() {
    let ds = DataSet::<i32, Population>::from([1, 2]);
    let m = ds.marker_name();
    let n = <Population as Marker>::NAME;
    assert_eq!("Population", m);
    assert_eq!(n, m);
}

#[test]
fn test_dof_denominator_error_coverage() {
    let ds = DataSet::<f64, Sample>::from(vec![1.0]);
    let result = ds.dof_denominator();

    assert!(result.is_err());

    assert_eq!(
        result,
        Err(StatsError::InsufficientData { needed: 2, got: 1 })
    );
}

#[test]
fn marker_constants_follow_bessel_table() {
    assert_eq!(<Sample as Marker>::DOF_OFFSET, 1);
    assert_eq!(<Population as Marker>::DOF_OFFSET, 0);
    assert_eq!(<Sample as Marker>::NAME, "Sample");
}

#[test]
fn empty_population_has_no_denominator() {
    let ds: PopulationData<u8> = DataSet::empty();
    assert!(ds.is_empty());
    assert_eq!(
        ds.dof_denominator(),
        Err(StatsError::InsufficientData { needed: 1, got: 0 })
    );
}

#[test]
fn sample_denominator_is_population_minus_one() {
    let values = [3u16, 1, 4, 1, 5, 9, 2, 6];
    let pop: PopulationData<u16> = DataSet::from(values);
    let samp: SampleData<u16> = pop.as_sample_clone();
    assert_eq!(pop.dof_denominator(), Ok(8));
    assert_eq!(samp.dof_denominator(), Ok(7));
}

#[test]
fn remarking_keeps_the_data() {
    let ds: SampleData<i64> = DataSet::from(vec![-4, 0, 7]);
    let copy = ds.as_population_clone();
    let back = copy.into_sample().into_population().into_sample();
    assert_eq!(back.as_slice(), ds.as_slice());
    assert_eq!(back.marker_name(), "Sample");
}

#[test]
fn index_through_deref_and_default() {
    let mut ds: PopulationData<i32> = Default::default();
    assert_eq!(ds.len(), 0);
    ds.push(5);
    ds.push(6);
    ds[1] = 60;
    assert_eq!(ds[0], 5);
    assert_eq!(ds[1], 60);
    let w: DataSet<i32> = DataSet::from(vec![9, 8]);
    assert_eq!(&*w, &[9, 8]);
}

#[test]
fn from_iter_keeps_iteration_order() {
    let ds = DataSet::<u32, Sample>::from_iter((1..=4).map(|x| x * 10));
    assert_eq!(ds.as_slice(), &[10, 20, 30, 40]);
}

#[test]
fn debug_string_names_the_marker() {
    let ds = DataSet::<i32, Sample>::from([7]);
    assert_eq!(ds.debug_string(), "DataSet<Sample>([7])");
}

#[test]
fn from_iter_of_a_vec_iterator() {
    let ds = DataSet::<i32, Population>::from_iter(vec![4, 5, 6].into_iter());
    assert_eq!(ds.len(), 3);
    assert_eq!(ds.as_slice(), &[4, 5, 6]);
}

#[test]
fn new_refuses_an_empty_series() {
    let r = DataSet::<i32, Population>::new(&[]);
    assert_eq!(r.err(), Some(StatsError::EmptyIterator));
}

#[test]
fn new_keeps_the_items_in_order() {
    let ds: DataSet<i32, Sample> = DataSet::new(&[1, 2, 3, 4, 5]).unwrap();
    assert_eq!(ds.as_slice(), &[1, 2, 3, 4, 5]);
    assert_eq!(ds.dof_denominator(), Ok(4));
}
