use airborne::numeric::ranks;

/// Order keys for finite test values: integral values map to themselves.
fn keys(data: &[f64]) -> Vec<i64> {
    data.iter().map(|&v| v as i64).collect()
}

/// Halves the doubled ranks back to average ranks.
fn average_ranks(data: &[f64]) -> Vec<f64> {
    ranks(&keys(data)).into_iter().map(|r| r as f64 / 2.0).collect()
}

#[test]
fn test_ranks_empty() {
    let data: [f64; 0] = [];
    let result = average_ranks(&data);
    assert!(result.is_empty());
}

#[test]
fn test_ranks_single_element() {
    let data = [10.0];
    let result = average_ranks(&data);
    assert_eq!(result, vec![1.0]);
}

#[test]
fn test_ranks_distinct_values() {
    let data = [10.0, 30.0, 20.0];
    let result = average_ranks(&data);
    assert_eq!(result, vec![1.0, 3.0, 2.0]);
}

#[test]
fn test_ranks_all_ties() {
    let data = [5.0, 5.0, 5.0];
    let result = average_ranks(&data);
    assert_eq!(result, vec![2.0, 2.0, 2.0]);
}

#[test]
fn test_ranks_mixed_ties() {
    let data = [1.0, 2.0, 2.0, 3.0, 3.0, 3.0];
    let result = average_ranks(&data);
    assert_eq!(result, vec![1.0, 2.5, 2.5, 5.0, 5.0, 5.0]);
}

#[test]
fn test_ranks_unsorted_with_ties() {
    let data = [40.0, 10.0, 40.0, 20.0];
    let result = average_ranks(&data);
    assert_eq!(result, vec![3.5, 1.0, 3.5, 2.0]);
}

#[test]
fn doubled_ranks_sum_to_n_times_n_plus_one() {
    let k = [7i64, -3, 7, 7, 0, -3, 12];
    let r = ranks(&k);
    let n = k.len();
    assert_eq!(r.iter().sum::<usize>(), n * (n + 1));
}

#[test]
fn ranks_follow_key_order() {
    let k = [i64::MAX, i64::MIN, 0, 0, -1];
    let r = ranks(&k);
    assert_eq!(r, vec![10, 2, 7, 7, 4]);
}

#[test]
fn ranks_of_a_long_reversed_run() {
    let k: Vec<i64> = (0..100).rev().collect();
    let r = ranks(&k);
    let expected: Vec<usize> = (0..100).rev().map(|p| 2 * (p + 1)).collect();
    assert_eq!(r, expected);
}

#[test]
fn ranks_of_interleaved_ties() {
    let k = [3i64, 1, 3, 2, 1, 3, 2, 1];
    let r = ranks(&k);
    // 1s take ranks 1..3 (mean 2), 2s take 4..5 (mean 4.5), 3s take 6..8 (mean 7).
    assert_eq!(r, vec![14, 4, 14, 9, 4, 14, 9, 4]);
}
