use vstd::prelude::*;

verus! {

/// The closed set of fixed-width scalar types that may be sorted or checked.
///
/// Each type exposes its value as a mathematical integer (`key`), and one
/// executable comparison that agrees with the order of those integers.
pub trait GPUSortAllowed: Copy + Sized {
    /// The value of the element, as an integer.
    spec fn key(self) -> int;

    /// `self <= other` in the element type's own order.
    fn at_most(&self, other: &Self) -> (r: bool)
        ensures
            r == (self.key() <= other.key()),
    ;
}

impl GPUSortAllowed for i8 {
    open spec fn key(self) -> int {
        self as int
    }

    fn at_most(&self, other: &Self) -> (r: bool) {
        *self <= *other
    }
}

impl GPUSortAllowed for i16 {
    open spec fn key(self) -> int {
        self as int
    }

    fn at_most(&self, other: &Self) -> (r: bool) {
        *self <= *other
    }
}

impl GPUSortAllowed for i32 {
    open spec fn key(self) -> int {
        self as int
    }

    fn at_most(&self, other: &Self) -> (r: bool) {
        *self <= *other
    }
}

impl GPUSortAllowed for i64 {
    open spec fn key(self) -> int {
        self as int
    }

    fn at_most(&self, other: &Self) -> (r: bool) {
        *self <= *other
    }
}

impl GPUSortAllowed for u8 {
    open spec fn key(self) -> int {
        self as int
    }

    fn at_most(&self, other: &Self) -> (r: bool) {
        *self <= *other
    }
}

impl GPUSortAllowed for u16 {
    open spec fn key(self) -> int {
        self as int
    }

    fn at_most(&self, other: &Self) -> (r: bool) {
        *self <= *other
    }
}

impl GPUSortAllowed for u32 {
    open spec fn key(self) -> int {
        self as int
    }

    fn at_most(&self, other: &Self) -> (r: bool) {
        *self <= *other
    }
}

impl GPUSortAllowed for u64 {
    open spec fn key(self) -> int {
        self as int
    }

    fn at_most(&self, other: &Self) -> (r: bool) {
        *self <= *other
    }
}

} // verus!
