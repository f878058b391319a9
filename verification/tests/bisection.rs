use pats::environment::bisection::{
    binary_search, find_left_closest, find_right_closest, is_sorted,
};
use pats::errors::SearchError;
use pats::ordering::order_key;

fn key(x: f64) -> i64 {
    order_key(x.to_bits()).expect("not a number")
}

/// Brute-force scan for the first element that has reached the target.
fn scan_first_reached(array: &[i64], x: i64) -> usize {
    let upwards = array[0] < array[array.len() - 1];
    for (i, v) in array.iter().enumerate() {
        if (upwards && *v >= x) || (!upwards && *v <= x) {
            return i;
        }
    }
    array.len()
}

fn scan_left(array: &[i64], x: i64) -> usize {
    let r = scan_first_reached(array, x);
    if array[r] == x {
        r
    } else {
        r - 1
    }
}

#[test]
fn left_closest_between_elements_ascending() {
    let array = [10, 20, 30, 40];
    assert_eq!(find_left_closest(&array, &25), Ok(1));
    assert_eq!(find_right_closest(&array, &25), Ok(2));
    assert_eq!(binary_search(&array, &25), Ok(2));
}

#[test]
fn closest_between_elements_descending() {
    let array = [40, 30, 20, 10];
    assert_eq!(find_left_closest(&array, &25), Ok(1));
    assert_eq!(find_right_closest(&array, &25), Ok(2));
    assert_eq!(binary_search(&array, &25), Ok(2));
}

#[test]
fn target_on_an_element_is_that_element() {
    let up = [10, 20, 30, 40];
    let down = [40, 30, 20, 10];
    for i in 0..4 {
        assert_eq!(find_left_closest(&up, &up[i]), Ok(i));
        assert_eq!(find_right_closest(&up, &up[i]), Ok(i));
        assert_eq!(find_left_closest(&down, &down[i]), Ok(i));
        assert_eq!(find_right_closest(&down, &down[i]), Ok(i));
    }
}

#[test]
fn single_element_array() {
    let array = [7];
    assert_eq!(find_left_closest(&array, &7), Ok(0));
    assert_eq!(find_right_closest(&array, &7), Ok(0));
    assert_eq!(find_left_closest(&array, &6), Err(SearchError::OutOfBounds));
    assert_eq!(find_right_closest(&array, &8), Err(SearchError::OutOfBounds));
}

#[test]
fn empty_array_is_refused() {
    let array: [i64; 0] = [];
    assert_eq!(binary_search(&array, &1), Err(SearchError::EmptyArray));
    assert_eq!(find_left_closest(&array, &1), Err(SearchError::EmptyArray));
    assert_eq!(find_right_closest(&array, &1), Err(SearchError::EmptyArray));
}

#[test]
fn target_outside_the_span_is_refused() {
    let up = [10, 20, 30];
    let down = [30, 20, 10];
    for array in [up, down] {
        assert_eq!(find_left_closest(&array, &9), Err(SearchError::OutOfBounds));
        assert_eq!(find_left_closest(&array, &31), Err(SearchError::OutOfBounds));
        assert_eq!(find_right_closest(&array, &9), Err(SearchError::OutOfBounds));
        assert_eq!(find_right_closest(&array, &31), Err(SearchError::OutOfBounds));
        assert_eq!(binary_search(&array, &i64::MIN), Err(SearchError::OutOfBounds));
        assert_eq!(binary_search(&array, &i64::MAX), Err(SearchError::OutOfBounds));
    }
}

#[test]
fn bisection_agrees_with_linear_scan() {
    let up: Vec<i64> = vec![-50, -20, -19, 0, 3, 4, 11, 60, 61, 100];
    let down: Vec<i64> = up.iter().rev().copied().collect();
    for array in [up, down] {
        assert!(is_sorted(&array));
        for x in -50..=100 {
            let right = scan_first_reached(&array, x);
            assert_eq!(binary_search(&array, &x), Ok(right));
            assert_eq!(find_right_closest(&array, &x), Ok(right));
            assert_eq!(find_left_closest(&array, &x), Ok(scan_left(&array, x)));
        }
    }
}

#[test]
fn bisection_brackets_the_target() {
    let array: Vec<i64> = vec![5, 8, 13, 21, 34];
    for x in 5..=34 {
        let left = find_left_closest(&array, &x).unwrap();
        let right = find_right_closest(&array, &x).unwrap();
        assert!(array[left] <= x && x <= array[right]);
        assert!(right - left <= 1);
        assert_eq!(left == right, array.contains(&x));
    }
}

#[test]
fn repeated_elements_give_the_first_of_them() {
    let array = [1, 2, 2, 2, 3];
    assert_eq!(find_left_closest(&array, &2), Ok(1));
    assert_eq!(find_right_closest(&array, &2), Ok(1));
}

#[test]
fn bisection_of_real_coordinates() {
    let lats: Vec<i64> = [54.5, 54.25, 54.0, 53.75, 53.5].iter().map(|v| key(*v)).collect();
    let lons: Vec<i64> = [-0.5, -0.25, 0.0, 0.25, 0.5].iter().map(|v| key(*v)).collect();
    assert_eq!(find_left_closest(&lats, &key(54.1)), Ok(1));
    assert_eq!(find_right_closest(&lats, &key(54.1)), Ok(2));
    assert_eq!(find_left_closest(&lons, &key(-0.3)), Ok(0));
    assert_eq!(find_right_closest(&lons, &key(-0.3)), Ok(1));
    assert_eq!(find_left_closest(&lons, &key(-0.0)), Ok(2));
    assert_eq!(find_left_closest(&lons, &key(0.6)), Err(SearchError::OutOfBounds));
}

#[test]
fn sortedness_is_told() {
    assert!(is_sorted(&[]));
    assert!(is_sorted(&[3]));
    assert!(is_sorted(&[1, 2, 2, 5]));
    assert!(is_sorted(&[5, 2, 2, 1]));
    assert!(is_sorted(&[4, 4, 4]));
    assert!(!is_sorted(&[1, 3, 2, 5]));
    assert!(!is_sorted(&[5, 1, 2, 0]));
    assert!(!is_sorted(&[2, 3, 1, 2]));
}

#[test]
fn search_errors_describe_themselves() {
    assert_eq!(SearchError::EmptyArray.message(), "Provided array is empty");
    assert_eq!(
        SearchError::OutOfBounds.message(),
        "Provided target is out of array bounds"
    );
}
