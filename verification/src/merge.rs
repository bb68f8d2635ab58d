use vstd::multiset::Multiset;
use vstd::prelude::*;

use crate::list::{list_view, Node};
use crate::order::NodeInner;

verus! {

/// A sequence is sorted in non-decreasing order.
pub open spec fn sorted<T: NodeInner>(s: Seq<T>) -> bool {
    forall|i: int, j: int| 0 <= i < j < s.len() ==> #[trigger] s[i].le_spec(s[j])
}

/// The merge of two sequences: the strictly smaller head is emitted first;
/// when neither head is strictly below the other (in particular on equal
/// values), the head of `b` is emitted before the head of `a`.
pub open spec fn merge_seqs<T: NodeInner>(a: Seq<T>, b: Seq<T>) -> Seq<T>
    decreases a.len() + b.len(),
{
    if a.len() == 0 {
        b
    } else if b.len() == 0 {
        a
    } else if !b[0].le_spec(a[0]) {
        seq![a[0]] + merge_seqs(a.skip(1), b)
    } else {
        seq![b[0]] + merge_seqs(a, b.skip(1))
    }
}

/// Merges two individually sorted lists into one sorted list, consuming
/// both.  The result holds exactly the merge of the two value sequences;
/// on equal head values the second list's element comes first.  Lists that
/// are not sorted are still merged, to the same equation; the result may
/// then not be sorted.
pub fn merge_sorted_lists<T: NodeInner>(
    list1: Option<Box<Node<T>>>,
    list2: Option<Box<Node<T>>>,
) -> (r: Option<Box<Node<T>>>)
    ensures
        list_view(r) == merge_seqs(list_view(list1), list_view(list2)),
        list_view(r).len() == list_view(list1).len() + list_view(list2).len(),
        sorted(list_view(list1)) && sorted(list_view(list2)) ==> sorted(list_view(r)),
    decreases list_view(list1).len() + list_view(list2).len(),
{
    proof {
        crate::list::lemma_empty_view(list1);
        crate::list::lemma_empty_view(list2);
        lemma_merge_len(list_view(list1), list_view(list2));
        if sorted(list_view(list1)) && sorted(list_view(list2)) {
            lemma_merge_sorted(list_view(list1), list_view(list2));
        }
    }
    match (list1, list2) {
        (None, None) => None,
        (Some(n), None) => Some(n),
        (None, Some(n)) => Some(n),
        (Some(l1), Some(l2)) => {
            let ghost a = list_view(Some(l1));
            let ghost b = list_view(Some(l2));
            if l1.value.lt(l2.value) {
                let v = l1.value;
                let rest = merge_sorted_lists(l1.next, Some(l2));
                proof {
                    assert(a.skip(1) =~= list_view(l1.next));
                    assert(seq![a[0]] + merge_seqs(a.skip(1), b) =~= merge_seqs(a, b));
                }
                Some(Box::new(Node { value: v, next: rest }))
            } else {
                let v = l2.value;
                let rest = merge_sorted_lists(Some(l1), l2.next);
                proof {
                    assert(b.skip(1) =~= list_view(l2.next));
                    assert(seq![b[0]] + merge_seqs(a, b.skip(1)) =~= merge_seqs(a, b));
                }
                Some(Box::new(Node { value: v, next: rest }))
            }
        },
    }
}

/// The merge holds as many values as its two inputs together.
pub proof fn lemma_merge_len<T: NodeInner>(a: Seq<T>, b: Seq<T>)
    ensures
        merge_seqs(a, b).len() == a.len() + b.len(),
    decreases a.len() + b.len(),
{
    if a.len() == 0 || b.len() == 0 {
    } else if !b[0].le_spec(a[0]) {
        lemma_merge_len(a.skip(1), b);
    } else {
        lemma_merge_len(a, b.skip(1));
    }
}

/// The merge holds exactly the values of its two inputs: its multiset is
/// the sum of theirs.
pub proof fn lemma_merge_multiset<T: NodeInner>(a: Seq<T>, b: Seq<T>)
    ensures
        merge_seqs(a, b).to_multiset() == a.to_multiset().add(b.to_multiset()),
    decreases a.len() + b.len(),
{
    broadcast use vstd::multiset::group_multiset_axioms;
    broadcast use vstd::seq_lib::group_to_multiset_ensures;

    if a.len() == 0 {
        assert(a.to_multiset() =~= Multiset::<T>::empty());
        assert(merge_seqs(a, b).to_multiset() =~= a.to_multiset().add(b.to_multiset()));
    } else if b.len() == 0 {
        assert(b.to_multiset() =~= Multiset::<T>::empty());
        assert(merge_seqs(a, b).to_multiset() =~= a.to_multiset().add(b.to_multiset()));
    } else if !b[0].le_spec(a[0]) {
        lemma_merge_multiset(a.skip(1), b);
        vstd::seq_lib::lemma_multiset_commutative(seq![a[0]], merge_seqs(a.skip(1), b));
        vstd::seq_lib::lemma_multiset_commutative(seq![a[0]], a.skip(1));
        assert(seq![a[0]] + a.skip(1) =~= a);
        assert(merge_seqs(a, b).to_multiset() =~= a.to_multiset().add(b.to_multiset()));
    } else {
        lemma_merge_multiset(a, b.skip(1));
        vstd::seq_lib::lemma_multiset_commutative(seq![b[0]], merge_seqs(a, b.skip(1)));
        vstd::seq_lib::lemma_multiset_commutative(seq![b[0]], b.skip(1));
        assert(seq![b[0]] + b.skip(1) =~= b);
        assert(merge_seqs(a, b).to_multiset() =~= a.to_multiset().add(b.to_multiset()));
    }
}

/// Merging in either order yields the same multiset of values; only the
/// relative order of equal values from the two sides may differ, per the
/// tie-break above.
pub proof fn lemma_merge_commutes_on_values<T: NodeInner>(a: Seq<T>, b: Seq<T>)
    ensures
        merge_seqs(a, b).to_multiset() == merge_seqs(b, a).to_multiset(),
{
    broadcast use vstd::multiset::group_multiset_axioms;

    lemma_merge_multiset(a, b);
    lemma_merge_multiset(b, a);
    assert(a.to_multiset().add(b.to_multiset()) =~= b.to_multiset().add(a.to_multiset()));
}

/// Putting `x` in front of a sorted sequence it is below keeps it sorted.
proof fn lemma_cons_sorted<T: NodeInner>(x: T, s: Seq<T>)
    requires
        sorted(s),
        s.len() == 0 || x.le_spec(s[0]),
    ensures
        sorted(seq![x] + s),
{
    let r = seq![x] + s;
    assert forall|i: int, j: int| 0 <= i < j < r.len() implies #[trigger] r[i].le_spec(r[j]) by {
        if i == 0 {
            if j == 1 {
                assert(r[j] == s[0]);
            } else {
                assert(s[0].le_spec(s[j - 1]));
                T::le_trans(x, s[0], s[j - 1]);
            }
        } else {
            assert(s[i - 1].le_spec(s[j - 1]));
        }
    }
}

/// Merging two sorted sequences yields a sorted sequence.
pub proof fn lemma_merge_sorted<T: NodeInner>(a: Seq<T>, b: Seq<T>)
    requires
        sorted(a),
        sorted(b),
    ensures
        sorted(merge_seqs(a, b)),
    decreases a.len() + b.len(),
{
    if a.len() == 0 || b.len() == 0 {
    } else if !b[0].le_spec(a[0]) {
        let rest = merge_seqs(a.skip(1), b);
        assert(sorted(a.skip(1))) by {
            assert(forall|i: int, j: int|
                0 <= i < j < a.skip(1).len() ==> #[trigger] a.skip(1)[i].le_spec(a.skip(1)[j]));
        }
        lemma_merge_sorted(a.skip(1), b);
        lemma_merge_len(a.skip(1), b);
        if rest.len() > 0 {
            assert(a[0].le_spec(rest[0])) by {
                if a.skip(1).len() == 0 {
                    assert(rest == b);
                    T::le_total(a[0], b[0]);
                } else if !b[0].le_spec(a.skip(1)[0]) {
                    assert(rest[0] == a.skip(1)[0]);
                    assert(a.skip(1)[0] == a[1]);
                } else {
                    assert(rest[0] == b[0]);
                    T::le_total(a[0], b[0]);
                }
            }
        }
        lemma_cons_sorted(a[0], rest);
    } else {
        let rest = merge_seqs(a, b.skip(1));
        assert(sorted(b.skip(1))) by {
            assert(forall|i: int, j: int|
                0 <= i < j < b.skip(1).len() ==> #[trigger] b.skip(1)[i].le_spec(b.skip(1)[j]));
        }
        lemma_merge_sorted(a, b.skip(1));
        lemma_merge_len(a, b.skip(1));
        if rest.len() > 0 {
            assert(b[0].le_spec(rest[0])) by {
                if b.skip(1).len() == 0 {
                    assert(rest == a);
                } else if !b.skip(1)[0].le_spec(a[0]) {
                    assert(rest[0] == a[0]);
                } else {
                    assert(rest[0] == b.skip(1)[0]);
                    assert(b.skip(1)[0] == b[1]);
                }
            }
        }
        lemma_cons_sorted(b[0], rest);
    }
}

} // verus!
