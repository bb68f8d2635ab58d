use vstd::prelude::*;

use crate::order::NodeInner;

verus! {

/// A node of a singly linked list: a value and the optional, exclusively
/// owned successor.  A whole list is an `Option<Box<Node<T>>>`; the empty
/// list is `None`.
#[derive(Debug, PartialEq, Eq)]
pub struct Node<T: NodeInner> {
    /// The value of the node.
    pub value: T,
    /// The rest of the list: absent for the last node.
    pub next: Option<Box<Node<T>>>,
}

/// The sequence of values a list holds, head first.  This is the
/// mathematical model every contract of the library is stated over.
pub open spec fn list_view<T: NodeInner>(l: Option<Box<Node<T>>>) -> Seq<T>
    decreases l,
{
    match l {
        None => Seq::empty(),
        Some(n) => seq![n.value] + list_view(n.next),
    }
}

impl<T: NodeInner> View for Node<T> {
    type V = Seq<T>;

    /// A node viewed as the sequence of values from it to the end.
    open spec fn view(&self) -> Seq<T> {
        seq![self.value] + list_view(self.next)
    }
}

/// A list holds no values exactly when it is the absent list.
pub proof fn lemma_empty_view<T: NodeInner>(l: Option<Box<Node<T>>>)
    ensures
        list_view(l).len() == 0 <==> l is None,
{
    match l {
        None => {
            assert(list_view(l) =~= Seq::<T>::empty());
        },
        Some(n) => {
            assert(list_view(l).len() == 1 + list_view(n.next).len());
        },
    }
}

/// Building a list from a sequence and then visiting it yields exactly that
/// sequence: the builders (`vec_to_list`, `vec_into_list`) pin the list's
/// values to their input, and `visit_all` returns the list's values in
/// order.  A sequence built from nothing gives the absent list, and there is
/// then nothing to visit.
pub proof fn lemma_build_then_visit<T: NodeInner>(
    s: Seq<T>,
    built: Option<Box<Node<T>>>,
    visited: Seq<T>,
)
    requires
        list_view(built) == s,
        match built {
            Some(n) => visited == n@,
            None => visited == Seq::<T>::empty(),
        },
    ensures
        visited == s,
{
}

impl<T: NodeInner> Node<T> {
    /// Returns a new node carrying `value`, with no successor.
    pub fn new(value: T) -> (n: Self)
        ensures
            n.value == value,
            n.next is None,
            n@ == seq![value],
    {
        let n = Node { next: None, value };
        proof {
            assert(n@ =~= seq![value]);
        }
        n
    }

    /// Returns the values of the list from this node to the end, head first,
    /// without mutating the list.
    pub fn visit_all(&self) -> (out: Vec<T>)
        ensures
            out@ == self@,
    {
        let mut out: Vec<T> = Vec::new();
        out.push(self.value);
        visit_recursive(&self.next, &mut out);
        proof {
            assert(out@ =~= self@);
        }
        out
    }

    /// Consumes the list from this node on and returns the suffix that
    /// starts at the structural middle: for a list of length `n`, the node
    /// at position `n / 2` (rounding down), found by the two-pointer scan.
    pub fn middle_node(self) -> (r: Option<Box<Node<T>>>)
        ensures
            list_view(r) == self@.skip(self@.len() as int / 2),
    {
        let list: Option<Box<Node<T>>> = Some(Box::new(self));
        let ghost n: int = list_view(list).len() as int;
        let mut slow: &Option<Box<Node<T>>> = &list;
        let mut fast: &Option<Box<Node<T>>> = &list;
        let ghost mut i: int = 0;
        while fast.is_some() && fast.as_ref().unwrap().next.is_some()
            invariant
                0 <= i,
                2 * i <= n,
                n == list_view(list).len(),
                list_view(*slow) == list_view(list).skip(i),
                list_view(*fast) == list_view(list).skip(2 * i),
            decreases n - 2 * i,
        {
            proof {
                broadcast use vstd::seq_lib::lemma_seq_skip_of_skip;

                let f = fast->Some_0;
                let g = f.next->Some_0;
                assert(list_view(*fast) == seq![f.value] + list_view(f.next));
                assert(list_view(f.next) == seq![g.value] + list_view(g.next));
                assert(list_view(f.next) =~= list_view(list).skip(2 * i).skip(1));
                assert(list_view(g.next) =~= list_view(list).skip(2 * i).skip(2));
                lemma_empty_view(*slow);
                let s = slow->Some_0;
                assert(list_view(s.next) =~= list_view(list).skip(i).skip(1));
            }
            slow = &slow.as_ref().unwrap().next;
            fast = &fast.as_ref().unwrap().next.as_ref().unwrap().next;
            proof {
                i = i + 1;
            }
        }
        proof {
            if fast.is_some() {
                let f = fast->Some_0;
                lemma_empty_view(f.next);
                assert(list_view(*fast) =~= seq![f.value]);
                assert(2 * i == n - 1);
            } else {
                lemma_empty_view(*fast);
                assert(2 * i == n);
            }
            assert(i == n / 2);
        }
        clone_list(slow)
    }
}

/// Builds a list holding the values of `input` in order: the first element
/// of the vector becomes the head.  The vector is only borrowed.
pub fn vec_to_list<T: NodeInner>(input: &Vec<T>) -> (l: Option<Box<Node<T>>>)
    ensures
        list_view(l) == input@,
{
    let mut current: Option<Box<Node<T>>> = None;
    let mut i: usize = input.len();
    while i > 0
        invariant
            i <= input.len(),
            list_view(current) == input@.skip(i as int),
        decreases i,
    {
        i = i - 1;
        current = Some(Box::new(Node { value: input[i], next: current }));
        proof {
            assert(list_view(current) =~= input@.skip(i as int));
        }
    }
    proof {
        assert(input@.skip(0) =~= input@);
    }
    current
}

/// Builds a list holding the values of `input` in order, consuming the
/// vector.  For a borrowing version see `vec_to_list`.
pub fn vec_into_list<T: NodeInner>(input: Vec<T>) -> (l: Option<Box<Node<T>>>)
    ensures
        list_view(l) == input@,
{
    vec_to_list(&input)
}

/// Returns a node-for-node copy of the list under `l`.
fn clone_list<T: NodeInner>(l: &Option<Box<Node<T>>>) -> (r: Option<Box<Node<T>>>)
    ensures
        r == *l,
    decreases *l,
{
    match l {
        None => None,
        Some(n) => Some(Box::new(Node { value: n.value, next: clone_list(&n.next) })),
    }
}

impl<T: NodeInner> Clone for Node<T> {
    /// Cloning copies the value and the whole successor chain, so the clone
    /// equals the original.
    fn clone(&self) -> (r: Self)
        ensures
            r == *self,
    {
        Node { value: self.value, next: clone_list(&self.next) }
    }
}

/// Appends the values of the list under `scope`, head first, to `out`.
fn visit_recursive<T: NodeInner>(scope: &Option<Box<Node<T>>>, out: &mut Vec<T>)
    ensures
        final(out)@ == old(out)@ + list_view(*scope),
    decreases *scope,
{
    match scope {
        Some(c) => {
            out.push(c.value);
            visit_recursive(&c.next, out);
            proof {
                assert(out@ =~= old(out)@ + list_view(*scope));
            }
        },
        None => {
            proof {
                assert(out@ =~= old(out)@ + list_view(*scope));
            }
        },
    }
}

} // verus!
