use coursework::tribonacci::{compute_tribonacci, compute_tribonacci_in_range, sum_of_terms, tribonacci_values};

#[test]
fn five_terms_and_their_sum() {
    let r = compute_tribonacci(Ok(5)).ok().unwrap();
    assert_eq!(r.values, vec![1, 1, 1, 3, 5]);
    assert_eq!(r.sum, 11);
}

#[test]
fn small_sizes_still_give_three_terms() {
    let r = compute_tribonacci(Ok(1)).ok().unwrap();
    assert_eq!(r.values, vec![1, 1, 1]);
    assert_eq!(r.sum, 3);
}

#[test]
fn unreadable_size_is_an_error() {
    let e = compute_tribonacci("x".parse::<usize>()).err().unwrap();
    assert_eq!(e.0, "Please enter a valid size");
}

#[test]
fn largest_size_fits() {
    let r = compute_tribonacci(Ok(146)).ok().unwrap();
    assert_eq!(r.values.len(), 146);
    assert_eq!(r.values[145], 103103525621914798269850342342252513585);
    assert_eq!(r.sum, 225950127193276222825134059100375410922);
}

#[test]
fn bounded_sizes_are_checked() {
    let e = compute_tribonacci_in_range(Ok(2), "Please enter a valid size".to_string()).err().unwrap();
    assert_eq!(e.0, "Please enter a valid size");
    assert!(compute_tribonacci_in_range(Ok(146), "bad".to_string()).is_err());
    let r = compute_tribonacci_in_range(Ok(145), "bad".to_string()).ok().unwrap();
    assert_eq!(r.values[144], 56056254050451055097056560769652751025);
    assert_eq!(r.sum, 122846601571361424555283716758122897337);
    let r = compute_tribonacci_in_range(Ok(3), "bad".to_string()).ok().unwrap();
    assert_eq!(r.values, vec![1, 1, 1]);
}

#[test]
fn values_and_sum_agree() {
    let v = tribonacci_values(10);
    assert_eq!(v, vec![1, 1, 1, 3, 5, 9, 17, 31, 57, 105]);
    assert_eq!(sum_of_terms(&v), 230);
}
