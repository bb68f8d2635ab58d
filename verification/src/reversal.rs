use vstd::prelude::*;

use crate::list::{list_view, Node};
use crate::order::NodeInner;

verus! {

/// Reverses the list iteratively, consuming it: each step detaches the
/// current head and points it at the already-reversed prefix.  The result
/// holds the same values in the opposite order.
pub fn reverse<T: NodeInner>(head: Option<Box<Node<T>>>) -> (r: Option<Box<Node<T>>>)
    ensures
        list_view(r) == list_view(head).reverse(),
        list_view(r).len() == list_view(head).len(),
        list_view(r).to_multiset() == list_view(head).to_multiset(),
{
    proof {
        lemma_reverse_preserves_values(list_view(head));
    }
    let ghost orig = list_view(head);
    let mut prev: Option<Box<Node<T>>> = None;
    let mut cur = head;
    while cur.is_some()
        invariant
            orig.reverse() == list_view(cur).reverse() + list_view(prev),
        decreases list_view(cur).len(),
    {
        proof {
            crate::list::lemma_empty_view(cur);
        }
        let boxed = cur.unwrap();
        let mut node = *boxed;
        let ghost cview = seq![node.value] + list_view(node.next);
        cur = node.next;
        node.next = prev;
        prev = Some(Box::new(node));
        proof {
            assert(cview.reverse() =~= list_view(cur).reverse() + seq![node.value]);
            assert(list_view(cur).reverse() + list_view(prev) =~= cview.reverse() + list_view(
                prev->Some_0.next,
            ));
        }
    }
    proof {
        crate::list::lemma_empty_view(cur);
        assert(list_view(cur).reverse() + list_view(prev) =~= list_view(prev));
    }
    prev
}

/// Reversal is an involution: reversing twice gives back the original
/// sequence of values.
pub proof fn lemma_reverse_involution<T: NodeInner>(s: Seq<T>)
    ensures
        s.reverse().reverse() == s,
{
    assert(s.reverse().reverse() =~= s);
}

/// Reversal keeps the length and the multiset of values.
pub proof fn lemma_reverse_preserves_values<T: NodeInner>(s: Seq<T>)
    ensures
        s.reverse().len() == s.len(),
        s.reverse().to_multiset() == s.to_multiset(),
{
    s.lemma_reverse_to_multiset();
}

} // verus!
