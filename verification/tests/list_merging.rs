use llist::{merge_sorted_lists, vec_into_list};

#[test]
fn test_merge_standard() {
    let list_1n = vec_into_list(vec![1, 2, 4]);
    let list_1m = vec_into_list(vec![1, 3, 4]);
    let out_1 = merge_sorted_lists(list_1n, list_1m);
    assert_eq!(out_1, vec_into_list(vec![1, 1, 2, 3, 4, 4]));
}

#[test]
fn test_merge_both_empty() {
    let list_2n = vec_into_list::<i32>(vec![]); // Empty vecs need explicit typing
    let list_2m = vec_into_list::<i32>(vec![]);
    let out_2 = merge_sorted_lists(list_2n, list_2m);
    assert_eq!(out_2, vec_into_list(vec![]));
}

#[test]
fn test_merge_one_empty() {
    let list_3n = vec_into_list::<i32>(vec![]);
    let list_3m = vec_into_list(vec![0]);
    let out_3 = merge_sorted_lists(list_3n, list_3m);
    assert_eq!(out_3, vec_into_list(vec![0]));
}

#[test]
fn test_merge_order_long() {
    let list4n = vec_into_list(vec![0, 1, 2, 3, 4, 5, 6, 7, 8]);
    let list4m = vec_into_list(vec![0, 2, 4, 6, 8, 10, 12, 14, 16]);
    let out_4 = merge_sorted_lists(list4n, list4m);
    assert_eq!(
        out_4,
        vec_into_list(vec![0, 0, 1, 2, 2, 3, 4, 4, 5, 6, 6, 7, 8, 8, 10, 12, 14, 16])
    );
}

#[test]
fn test_merge_chars() {
    let left = vec_into_list(vec!['a', 'c']);
    let right = vec_into_list(vec!['b', 'd']);
    let out = merge_sorted_lists(left, right);
    assert_eq!(out, vec_into_list(vec!['a', 'b', 'c', 'd']));
}

#[test]
fn test_merge_bools() {
    let left = vec_into_list(vec![false, true]);
    let right = vec_into_list(vec![true]);
    let out = merge_sorted_lists(left, right);
    assert_eq!(out, vec_into_list(vec![false, true, true]));
}

#[test]
fn test_merge_commutes_without_cross_duplicates() {
    // With no value present in both inputs, the two merge orders agree even
    // as sequences; ties never arise, so the tie-break is not observable.
    let ab = merge_sorted_lists(vec_into_list(vec![1, 3]), vec_into_list(vec![2, 4]));
    let ba = merge_sorted_lists(vec_into_list(vec![2, 4]), vec_into_list(vec![1, 3]));
    assert_eq!(ab, ba);
    assert_eq!(ab, vec_into_list(vec![1, 2, 3, 4]));
}

#[test]
fn test_merge_unsorted_inputs_is_total() {
    // Unsorted inputs are merged all the same, by the same head-to-head
    // rule; the output is then simply not sorted.
    let left = vec_into_list(vec![3, 1]);
    let right = vec_into_list(vec![2]);
    let out = merge_sorted_lists(left, right);
    assert_eq!(out, vec_into_list(vec![2, 3, 1]));
}
