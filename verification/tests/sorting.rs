use var_desktop::sorting::stable_order_desc;

#[test]
fn largest_key_first_and_ties_keep_their_order() {
    assert_eq!(stable_order_desc(&vec![3, 9, 3, 1, 9]), vec![1, 4, 0, 2, 3]);
    assert!(stable_order_desc(&vec![]).is_empty());
    assert_eq!(stable_order_desc(&vec![-5, i128::MAX, i128::MIN]), vec![1, 0, 2]);
}

#[test]
fn agrees_with_a_stable_library_sort() {
    let keys: Vec<i128> = vec![4, 1, 4, 7, 0, 7, 7, 2];
    let mut expected: Vec<usize> = (0..keys.len()).collect();
    expected.sort_by(|a, b| keys[*b].cmp(&keys[*a]));
    assert_eq!(stable_order_desc(&keys), expected);
}
