use mtie::{
    check_monotonically_increasing, excursion_of, mtie_complete, mtie_fast, run, MtieError,
    MAX_COMPLETE_SAMPLES,
};

fn mtie_values(input: &[i64]) -> Vec<u64> {
    let output = mtie_complete(input).unwrap();
    output.into_iter().map(|(_tau, mtie)| mtie).collect()
}

fn test_slow_algo_values(input: Vec<i64>, expected: Vec<u64>) {
    let values = mtie_values(&input);
    assert_eq!(values, expected, "mtie for {:?} is {:?}", input, values);
}

fn floor_log2(n: usize) -> usize {
    let mut k = 0;
    while (2usize << k) <= n {
        k += 1;
    }
    k
}

#[test]
pub fn test_mtie_output_size() {
    let input = vec![1; 10];
    let output = mtie_complete(&input).unwrap();
    assert_eq!(output.len(), input.len() - 1);

    let input = vec![0; 99];
    let output = mtie_complete(&input).unwrap();
    assert_eq!(output.len(), input.len() - 1);
}

#[test]
pub fn test_single_input() {
    let input = vec![1; 1];
    let output = mtie_complete(&input).unwrap();
    let expected: Vec<(usize, u64)> = Vec::new();
    assert_eq!(output, expected, "mtie for {:?} is {:?}", input, output);
}

#[test]
pub fn test_flat_line() {
    let input = vec![0; 10];
    let expected = vec![0; 9];
    test_slow_algo_values(input, expected);

    let input = vec![12_345_678; 10];
    let expected = vec![0; 9];
    test_slow_algo_values(input, expected);

    let input = vec![-1000; 10];
    let expected = vec![0; 9];
    test_slow_algo_values(input, expected);
}

#[test]
pub fn test_constant_increase() {
    let input = vec![1, 2, 3, 4, 5];
    let expected = vec![1, 2, 3, 4];
    test_slow_algo_values(input, expected);
}

#[test]
pub fn test_constant_decrease() {
    let input = vec![100, 90, 80, 70, 60];
    let expected = vec![10, 20, 30, 40];
    test_slow_algo_values(input, expected);
}

#[test]
pub fn test_step() {
    let input = vec![100, 100, 100, 150, 150];
    let expected = vec![50, 50, 50, 50];
    test_slow_algo_values(input, expected);
}

#[test]
pub fn test_two_steps() {
    let input = vec![100, 100, 150, 150, 200];
    let expected = vec![50, 50, 100, 100];
    test_slow_algo_values(input, expected);
}

#[test]
pub fn test_oscillating() {
    let input = vec![1, 2, 3, 4, 5, 4, 3, 2, 1];
    let expected = vec![1, 2, 3, 4, 4, 4, 4, 4];
    test_slow_algo_values(input, expected);
}

#[test]
pub fn test_too_large() {
    let input = vec![0; 100_001];
    let output = mtie_complete(&input);
    assert_eq!(output, Err(MtieError::SizeExceeded { ceiling: 100_000, actual: 100_001 }));
}

#[test]
pub fn test_fast_constant() {
    let input = vec![1, 1, 1, 1];
    let expected = vec![(1, 0), (3, 0)];
    let output = mtie_fast(&input);
    assert_eq!(output, expected, "mtie for {:?} is {:?}", input, output);
}

#[test]
pub fn test_fast_slope() {
    let input = vec![1, 2, 3, 4, 5, 6, 7, 8];
    let expected = vec![(1, 1), (3, 3), (7, 7)];
    let output = mtie_fast(&input);
    assert_eq!(output, expected, "mtie for {:?} is {:?}", input, output);
}

#[test]
fn complete_pairs_each_value_with_its_interval() {
    let output = mtie_complete(&[100, 100, 150, 150, 200]).unwrap();
    assert_eq!(output, vec![(1, 50), (2, 50), (3, 100), (4, 100)]);
}

#[test]
fn complete_on_empty_input_is_empty() {
    assert_eq!(mtie_complete(&[]), Ok(Vec::new()));
}

#[test]
fn complete_accepts_the_ceiling_itself() {
    assert_eq!(MAX_COMPLETE_SAMPLES, 100_000);
    let input = vec![7; 2];
    assert!(mtie_complete(&input).is_ok());
}

#[test]
fn complete_on_arithmetic_series_is_slope_times_interval() {
    let input: Vec<i64> = (0..12).map(|i| 40 - 3 * i).collect();
    let values = mtie_values(&input);
    let expected: Vec<u64> = (1..12).map(|tau| 3 * tau).collect();
    assert_eq!(values, expected);
}

#[test]
fn complete_on_constant_series_is_zero() {
    let values = mtie_values(&vec![-5; 17]);
    assert_eq!(values, vec![0; 16]);
}

#[test]
fn complete_output_length_is_one_less_than_input() {
    for n in 1..20 {
        let input: Vec<i64> = (0..n).map(|i| (i * 7 % 5) as i64).collect();
        assert_eq!(mtie_complete(&input).unwrap().len(), n - 1);
    }
}

#[test]
fn complete_is_non_decreasing_on_irregular_input() {
    let input = vec![3, -8, 14, 0, 2, 9, -20, 5, 5, 11, -1];
    let values = mtie_values(&input);
    assert!(values.windows(2).all(|w| w[0] <= w[1]), "{:?}", values);
    assert_eq!(values, vec![29, 29, 31, 34, 34, 34, 34, 34, 34, 34]);
}

#[test]
fn complete_takes_the_full_sample_range() {
    let output = mtie_complete(&[i64::MIN, i64::MAX]).unwrap();
    assert_eq!(output, vec![(1, u64::MAX)]);
}

#[test]
fn fast_output_length_is_floor_log2() {
    for n in [0usize, 1, 2, 3, 4, 5, 7, 8, 9, 15, 16, 17, 1000] {
        let input = vec![1; n];
        assert_eq!(mtie_fast(&input).len(), floor_log2(n), "n = {}", n);
    }
}

#[test]
fn fast_agrees_with_complete_at_dyadic_intervals() {
    let input = vec![3, -8, 14, 0, 2, 9, -20, 5, 5, 11, -1, 6, 6, 30, -4, 2, 2, 0, 1];
    let complete = mtie_complete(&input).unwrap();
    let fast = mtie_fast(&input);
    assert_eq!(fast.len(), 4);
    for (tau, value) in fast {
        assert_eq!(complete[tau - 1], (tau, value));
    }
}

#[test]
fn fast_is_non_decreasing_on_irregular_input() {
    let input: Vec<i64> = (0..300).map(|i| ((i * 37) % 101) as i64 - 50).collect();
    let fast = mtie_fast(&input);
    assert!(fast.windows(2).all(|w| w[0].1 <= w[1].1), "{:?}", fast);
}

#[test]
fn fast_on_window_edges() {
    let input = vec![0, 0, 0, 0, 0, 0, 0, 9];
    assert_eq!(mtie_fast(&input), vec![(1, 9), (3, 9), (7, 9)]);
    let input = vec![5, 0, 0, 0, 0, 0, 0, 0, 0];
    assert_eq!(mtie_fast(&input), vec![(1, 5), (3, 5), (7, 5)]);
}

#[test]
fn run_uses_the_exact_engine_up_to_the_ceiling() {
    let input = vec![100, 100, 150, 150, 200];
    assert_eq!(run(&input), Ok(vec![(1, 50), (2, 50), (3, 100), (4, 100)]));
}

#[test]
fn run_uses_the_pyramid_engine_beyond_the_ceiling() {
    let input: Vec<i64> = (0..100_001).map(|i| i as i64).collect();
    let output = run(&input).unwrap();
    assert_eq!(output.len(), 16);
    assert_eq!(output[0], (1, 1));
    assert_eq!(output[15], (65_535, 65_535));
}

#[test]
fn monotonic_curve_passes_the_check() {
    assert_eq!(check_monotonically_increasing(&[(1, 2), (2, 2), (3, 9)]), Ok(()));
    assert_eq!(check_monotonically_increasing(&[]), Ok(()));
}

#[test]
fn falling_curve_fails_the_check_at_its_first_fall() {
    let result = check_monotonically_increasing(&[(1, 2), (2, 7), (3, 4), (4, 1)]);
    assert_eq!(result, Err(MtieError::NotMonotonic { index: 1, earlier: 7, later: 4 }));
}

#[test]
fn excursion_is_an_absolute_difference() {
    assert_eq!(excursion_of(3, 10), 7);
    assert_eq!(excursion_of(10, 3), 7);
    assert_eq!(excursion_of(i64::MAX, i64::MIN), u64::MAX);
}
