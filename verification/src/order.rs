use vstd::prelude::*;

verus! {

/// The element types a list can hold: small copyable scalars with a total
/// order.
///
/// `le_spec` is the mathematical non-decreasing order that every contract of
/// this library speaks of; `lt` is the executable strict comparison the merge
/// uses.  `le_total` and `le_trans` oblige every implementor to make
/// `le_spec` a total, transitive relation, which is what the sortedness
/// proofs rest on; floating-point values have no such order, so they are
/// not element types here.
pub trait NodeInner: Copy + Sized {
    /// The non-strict order on elements: `self` comes no later than `other`.
    spec fn le_spec(self, other: Self) -> bool;

    /// The order is total: of any two elements, one is below the other.
    proof fn le_total(a: Self, b: Self)
        ensures
            a.le_spec(b) || b.le_spec(a),
    ;

    /// The order is transitive.
    proof fn le_trans(a: Self, b: Self, c: Self)
        requires
            a.le_spec(b),
            b.le_spec(c),
        ensures
            a.le_spec(c),
    ;

    /// Strict comparison: true exactly when `self` comes strictly before
    /// `other`.
    fn lt(self, other: Self) -> (r: bool)
        ensures
            r == !other.le_spec(self),
    ;
}

impl NodeInner for i8 {
    open spec fn le_spec(self, other: Self) -> bool {
        self <= other
    }

    proof fn le_total(a: Self, b: Self) {
    }

    proof fn le_trans(a: Self, b: Self, c: Self) {
    }

    fn lt(self, other: Self) -> (r: bool) {
        self < other
    }
}

impl NodeInner for i16 {
    open spec fn le_spec(self, other: Self) -> bool {
        self <= other
    }

    proof fn le_total(a: Self, b: Self) {
    }

    proof fn le_trans(a: Self, b: Self, c: Self) {
    }

    fn lt(self, other: Self) -> (r: bool) {
        self < other
    }
}

impl NodeInner for i32 {
    open spec fn le_spec(self, other: Self) -> bool {
        self <= other
    }

    proof fn le_total(a: Self, b: Self) {
    }

    proof fn le_trans(a: Self, b: Self, c: Self) {
    }

    fn lt(self, other: Self) -> (r: bool) {
        self < other
    }
}

impl NodeInner for i64 {
    open spec fn le_spec(self, other: Self) -> bool {
        self <= other
    }

    proof fn le_total(a: Self, b: Self) {
    }

    proof fn le_trans(a: Self, b: Self, c: Self) {
    }

    fn lt(self, other: Self) -> (r: bool) {
        self < other
    }
}

impl NodeInner for i128 {
    open spec fn le_spec(self, other: Self) -> bool {
        self <= other
    }

    proof fn le_total(a: Self, b: Self) {
    }

    proof fn le_trans(a: Self, b: Self, c: Self) {
    }

    fn lt(self, other: Self) -> (r: bool) {
        self < other
    }
}

impl NodeInner for isize {
    open spec fn le_spec(self, other: Self) -> bool {
        self <= other
    }

    proof fn le_total(a: Self, b: Self) {
    }

    proof fn le_trans(a: Self, b: Self, c: Self) {
    }

    fn lt(self, other: Self) -> (r: bool) {
        self < other
    }
}

impl NodeInner for u8 {
    open spec fn le_spec(self, other: Self) -> bool {
        self <= other
    }

    proof fn le_total(a: Self, b: Self) {
    }

    proof fn le_trans(a: Self, b: Self, c: Self) {
    }

    fn lt(self, other: Self) -> (r: bool) {
        self < other
    }
}

impl NodeInner for u16 {
    open spec fn le_spec(self, other: Self) -> bool {
        self <= other
    }

    proof fn le_total(a: Self, b: Self) {
    }

    proof fn le_trans(a: Self, b: Self, c: Self) {
    }

    fn lt(self, other: Self) -> (r: bool) {
        self < other
    }
}

impl NodeInner for u32 {
    open spec fn le_spec(self, other: Self) -> bool {
        self <= other
    }

    proof fn le_total(a: Self, b: Self) {
    }

    proof fn le_trans(a: Self, b: Self, c: Self) {
    }

    fn lt(self, other: Self) -> (r: bool) {
        self < other
    }
}

impl NodeInner for u64 {
    open spec fn le_spec(self, other: Self) -> bool {
        self <= other
    }

    proof fn le_total(a: Self, b: Self) {
    }

    proof fn le_trans(a: Self, b: Self, c: Self) {
    }

    fn lt(self, other: Self) -> (r: bool) {
        self < other
    }
}

impl NodeInner for u128 {
    open spec fn le_spec(self, other: Self) -> bool {
        self <= other
    }

    proof fn le_total(a: Self, b: Self) {
    }

    proof fn le_trans(a: Self, b: Self, c: Self) {
    }

    fn lt(self, other: Self) -> (r: bool) {
        self < other
    }
}

impl NodeInner for usize {
    open spec fn le_spec(self, other: Self) -> bool {
        self <= other
    }

    proof fn le_total(a: Self, b: Self) {
    }

    proof fn le_trans(a: Self, b: Self, c: Self) {
    }

    fn lt(self, other: Self) -> (r: bool) {
        self < other
    }
}

impl NodeInner for char {
    open spec fn le_spec(self, other: Self) -> bool {
        (self as u32) <= (other as u32)
    }

    proof fn le_total(a: Self, b: Self) {
    }

    proof fn le_trans(a: Self, b: Self, c: Self) {
    }

    fn lt(self, other: Self) -> (r: bool) {
        (self as u32) < (other as u32)
    }
}

impl NodeInner for bool {
    open spec fn le_spec(self, other: Self) -> bool {
        !self || other
    }

    proof fn le_total(a: Self, b: Self) {
    }

    proof fn le_trans(a: Self, b: Self, c: Self) {
    }

    fn lt(self, other: Self) -> (r: bool) {
        !self && other
    }
}

} // verus!
