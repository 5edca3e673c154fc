//! Pure element tests and element transforms, passed to the pipeline
//! as values. Each carries a spec-level meaning that its executable
//! evaluation is proved to match.

use vstd::prelude::*;

verus! {

/// A pure test on a number: the pipeline keeps the elements for which
/// it holds.
pub trait Selector {
    /// The meaning of the test.
    spec fn holds(&self, x: u64) -> bool;

    /// Evaluates the test on one element.
    fn eval(&self, x: u64) -> (r: bool)
        ensures
            r == self.holds(x),
    ;
}

/// Accepts multiples of a fixed modulus; nothing counts as a multiple
/// of zero.
pub struct DivisibleBy(pub u64);

impl Selector for DivisibleBy {
    open spec fn holds(&self, x: u64) -> bool {
        self.0 != 0 && x % self.0 == 0
    }

    fn eval(&self, x: u64) -> (r: bool) {
        if self.0 == 0 {
            false
        } else {
            x % self.0 == 0
        }
    }
}

/// Accepts odd numbers.
pub struct IsOdd;

impl Selector for IsOdd {
    open spec fn holds(&self, x: u64) -> bool {
        x % 2 == 1
    }

    fn eval(&self, x: u64) -> (r: bool) {
        x % 2 == 1
    }
}

/// Accepts even numbers.
pub struct IsEven;

impl Selector for IsEven {
    open spec fn holds(&self, x: u64) -> bool {
        x % 2 == 0
    }

    fn eval(&self, x: u64) -> (r: bool) {
        x % 2 == 0
    }
}

/// Accepts numbers strictly below a bound.
pub struct LessThan(pub u64);

impl Selector for LessThan {
    open spec fn holds(&self, x: u64) -> bool {
        x < self.0
    }

    fn eval(&self, x: u64) -> (r: bool) {
        x < self.0
    }
}

/// Accepts numbers at or above a bound.
pub struct AtLeast(pub u64);

impl Selector for AtLeast {
    open spec fn holds(&self, x: u64) -> bool {
        x >= self.0
    }

    fn eval(&self, x: u64) -> (r: bool) {
        x >= self.0
    }
}

/// The identity test: accepts every number.
pub struct AcceptAll;

impl Selector for AcceptAll {
    open spec fn holds(&self, x: u64) -> bool {
        true
    }

    fn eval(&self, x: u64) -> (r: bool) {
        true
    }
}

/// Accepts what either of two tests accepts.
pub struct AnyOf<A, B>(pub A, pub B);

impl<A: Selector, B: Selector> Selector for AnyOf<A, B> {
    open spec fn holds(&self, x: u64) -> bool {
        self.0.holds(x) || self.1.holds(x)
    }

    fn eval(&self, x: u64) -> (r: bool) {
        self.0.eval(x) || self.1.eval(x)
    }
}

/// Accepts what both of two tests accept.
pub struct AllOf<A, B>(pub A, pub B);

impl<A: Selector, B: Selector> Selector for AllOf<A, B> {
    open spec fn holds(&self, x: u64) -> bool {
        self.0.holds(x) && self.1.holds(x)
    }

    fn eval(&self, x: u64) -> (r: bool) {
        self.0.eval(x) && self.1.eval(x)
    }
}

/// A pure function from element to element: the pipeline replaces each
/// kept element by its image.
pub trait Transform {
    /// The mathematical value of the image, unbounded.
    spec fn image(&self, x: u64) -> int;

    /// Computes the image of one element; the caller vouches that it
    /// fits in the machine word.
    fn apply(&self, x: u64) -> (r: u64)
        requires
            0 <= self.image(x) <= u64::MAX,
        ensures
            r == self.image(x),
    ;
}

/// Adds a fixed amount to each element.
pub struct AddConst(pub u64);

impl Transform for AddConst {
    open spec fn image(&self, x: u64) -> int {
        x + self.0
    }

    fn apply(&self, x: u64) -> (r: u64) {
        x + self.0
    }
}

/// Multiplies each element by a fixed factor.
pub struct ScaleBy(pub u64);

impl Transform for ScaleBy {
    open spec fn image(&self, x: u64) -> int {
        x * self.0
    }

    fn apply(&self, x: u64) -> (r: u64) {
        x * self.0
    }
}

/// Squares each element.
pub struct Square;

impl Transform for Square {
    open spec fn image(&self, x: u64) -> int {
        x * x
    }

    fn apply(&self, x: u64) -> (r: u64) {
        x * x
    }
}

/// Divides each element by a fixed divisor; a zero divisor maps
/// everything to zero.
pub struct Quotient(pub u64);

impl Transform for Quotient {
    open spec fn image(&self, x: u64) -> int {
        if self.0 == 0 {
            0
        } else {
            x as int / self.0 as int
        }
    }

    fn apply(&self, x: u64) -> (r: u64) {
        if self.0 == 0 {
            0
        } else {
            proof {
                vstd::arithmetic::div_mod::lemma_div_pos_is_pos(x as int, self.0 as int);
                vstd::arithmetic::div_mod::lemma_div_nonincreasing(x as int, self.0 as int);
            }
            x / self.0
        }
    }
}

} // verus!
