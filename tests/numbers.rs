use rusty_problems::numbers::{find_largest_element, sum_one_to_n};

#[test]
fn test_no_elements() {
    let empty_vec = Vec::new();

    let result = find_largest_element(&empty_vec);

    assert_eq!(result, None);
}

#[test]
fn test_some_elements() {
    let myvec = vec![1, 5, 3, 8, 0];

    let result = find_largest_element(&myvec);

    assert_eq!(result, Some(8));
}

#[test]
fn test_negative_elements() {
    let myvec = vec![-1, -5, -3, -8];

    let result = find_largest_element(&myvec);

    assert_eq!(result, Some(-1));
}

#[test]
fn largest_of_extremes_and_repeats() {
    assert_eq!(find_largest_element(&vec![i64::MIN, i64::MAX, 0]), Some(i64::MAX));
    assert_eq!(find_largest_element(&vec![7, 7, 7]), Some(7));
    assert_eq!(find_largest_element(&vec![i64::MIN]), Some(i64::MIN));
}

#[test]
fn test_sum_0() {
    let result = sum_one_to_n(0);

    assert_eq!(result, 0);
}

#[test]
fn test_sum_1() {
    let result = sum_one_to_n(1);

    assert_eq!(result, 1);
}

#[test]
fn test_sum_100() {
    let result = sum_one_to_n(100);

    assert_eq!(result, 5050);
}

#[test]
fn sum_at_the_largest_input_that_fits() {
    assert_eq!(sum_one_to_n(92681), 4294930221);
}
