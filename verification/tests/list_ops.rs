use llist::{merge_sorted_lists, reverse, vec_into_list, vec_to_list, Node};

#[test]
fn test_new_node() {
    let node = Node::new(42);
    assert_eq!(node.value, 42);
    assert!(node.next.is_none());
    assert_eq!(node.visit_all(), vec![42]);
}

#[test]
fn test_build_then_visit_in_order() {
    let list = vec_to_list(&vec![5, 7, 9]).unwrap();
    assert_eq!(list.visit_all(), vec![5, 7, 9]);
}

#[test]
fn test_build_empty_is_absent() {
    let list = vec_to_list::<i32>(&vec![]);
    assert!(list.is_none());
    let consumed = vec_into_list::<i32>(vec![]);
    assert!(consumed.is_none());
}

#[test]
fn test_borrowing_and_consuming_builders_agree() {
    let values = vec![4, 2, 8, 6];
    let borrowed = vec_to_list(&values);
    let consumed = vec_into_list(values);
    assert_eq!(borrowed, consumed);
}

#[test]
fn test_middle_of_four() {
    let list = vec_into_list(vec![1, 2, 3, 4]).unwrap();
    let middle = (*list).middle_node();
    assert_eq!(middle, vec_into_list(vec![3, 4]));
}

#[test]
fn test_middle_of_one() {
    let list = vec_into_list(vec![1]).unwrap();
    let middle = (*list).middle_node();
    assert_eq!(middle, vec_into_list(vec![1]));
}

#[test]
fn test_middle_of_five() {
    let list = vec_into_list(vec![1, 2, 3, 4, 5]).unwrap();
    let middle = (*list).middle_node();
    assert_eq!(middle, vec_into_list(vec![3, 4, 5]));
}

#[test]
fn test_reverse_three() {
    let list = vec_into_list(vec![1, 2, 3]);
    assert_eq!(reverse(list), vec_into_list(vec![3, 2, 1]));
}

#[test]
fn test_reverse_empty() {
    let list = vec_into_list::<i32>(vec![]);
    assert!(reverse(list).is_none());
}

#[test]
fn test_reverse_involution() {
    let list = vec_into_list(vec![1, 2, 3, 4, 5]);
    let twice = reverse(reverse(list));
    assert_eq!(twice, vec_into_list(vec![1, 2, 3, 4, 5]));
}

#[test]
fn test_reverse_keeps_values() {
    let out = reverse(vec_into_list(vec![2, 1, 2])).unwrap();
    let mut values = out.visit_all();
    assert_eq!(values.len(), 3);
    values.sort();
    assert_eq!(values, vec![1, 2, 2]);
}

#[test]
fn test_clone_equals_original() {
    let list = vec_into_list(vec![1, 2, 3]).unwrap();
    let copy = (*list).clone();
    assert_eq!(*list, copy);
}

#[test]
fn test_merge_keeps_count() {
    let left = vec_into_list(vec![1, 4, 6]);
    let right = vec_into_list(vec![2, 3, 5, 7]);
    let out = merge_sorted_lists(left, right).unwrap();
    assert_eq!(out.visit_all().len(), 7);
    assert_eq!(out.visit_all(), vec![1, 2, 3, 4, 5, 6, 7]);
}
