//! A minimal generic singly-linked list.
//!
//! A list is an `Option<Box<Node<T>>>`: the empty list is `None`, never a
//! sentinel node, and every node exclusively owns its successor chain.  The
//! library builds a list from a vector, walks it in order, finds the middle
//! node, merges two sorted lists into one sorted list, and reverses a list
//! in place.  Every operation carries a contract over the mathematical
//! sequence of values the list holds.

mod list;
mod merge;
mod order;
mod reversal;

pub use list::lemma_build_then_visit;
pub use list::lemma_empty_view;
pub use list::list_view;
pub use list::vec_into_list;
pub use list::vec_to_list;
pub use list::Node;
pub use merge::lemma_merge_commutes_on_values;
pub use merge::lemma_merge_len;
pub use merge::lemma_merge_multiset;
pub use merge::lemma_merge_sorted;
pub use merge::merge_seqs;
pub use merge::merge_sorted_lists;
pub use merge::sorted;
pub use order::NodeInner;
pub use reversal::lemma_reverse_involution;
pub use reversal::lemma_reverse_preserves_values;
pub use reversal::reverse;
