use job_queue::utils::{
    bubble_sort, generate_random_array, MAX_ARRAY_LEN, MAX_ARRAY_VALUE, MIN_ARRAY_LEN,
    MIN_ARRAY_VALUE,
};

#[test]
fn sorts_and_counts_swaps() {
    let mut data = vec![5, 1, 4, 2, 8];
    assert_eq!(bubble_sort(&mut data), 4);
    assert_eq!(data, vec![1, 2, 4, 5, 8]);

    let mut reversed = vec![4, 3, 2, 1];
    assert_eq!(bubble_sort(&mut reversed), 6);
    assert_eq!(reversed, vec![1, 2, 3, 4]);

    let mut sorted = vec![-3, -3, 0, 7];
    assert_eq!(bubble_sort(&mut sorted), 0);
    assert_eq!(sorted, vec![-3, -3, 0, 7]);
}

#[test]
fn sorts_short_arrays() {
    let mut empty: Vec<i32> = Vec::new();
    assert_eq!(bubble_sort(&mut empty), 0);
    assert!(empty.is_empty());

    let mut one = vec![9];
    assert_eq!(bubble_sort(&mut one), 0);
    assert_eq!(one, vec![9]);

    let mut two = vec![i32::MAX, i32::MIN];
    assert_eq!(bubble_sort(&mut two), 1);
    assert_eq!(two, vec![i32::MIN, i32::MAX]);
}

#[test]
fn sorts_with_repeated_values() {
    let mut data = vec![2, 1, 2, 1, 2, 1];
    assert_eq!(bubble_sort(&mut data), 6);
    assert_eq!(data, vec![1, 1, 1, 2, 2, 2]);
}

#[test]
fn sorting_agrees_with_the_standard_sort() {
    for _ in 0..50 {
        let mut data = generate_random_array();
        let mut expected = data.clone();
        expected.sort();
        let inversions = (0..data.len())
            .flat_map(|i| (i + 1..data.len()).map(move |j| (i, j)))
            .filter(|&(i, j)| data[i] > data[j])
            .count();
        assert_eq!(bubble_sort(&mut data), inversions as u128);
        assert_eq!(data, expected);
    }
}

#[test]
fn random_arrays_stay_in_bounds() {
    assert_eq!((MIN_ARRAY_LEN, MAX_ARRAY_LEN), (5, 50));
    assert_eq!((MIN_ARRAY_VALUE, MAX_ARRAY_VALUE), (-100, 100));
    let mut lengths = std::collections::BTreeSet::new();
    let mut values = std::collections::BTreeSet::new();
    for _ in 0..500 {
        let array = generate_random_array();
        assert!((5..=50).contains(&array.len()));
        assert!(array.iter().all(|v| (-100..=100).contains(v)));
        lengths.insert(array.len());
        values.extend(array);
    }
    // Chance shows: neither the lengths nor the values are all the same.
    assert!(lengths.len() > 10);
    assert!(values.len() > 100);
}
