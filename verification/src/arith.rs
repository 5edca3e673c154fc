//! Elementary arithmetic helpers: increment, addition, parity checks,
//! minimum, and division with quotient and remainder.

use vstd::prelude::*;
use vstd::std_specs::cmp::PartialOrdSpec;
use vstd::std_specs::ops::{AddSpec, SubSpec};

verus! {

/// Adds one to the given number.
pub fn add_one(x: i32) -> (r: i32)
    requires
        x < i32::MAX,
    ensures
        r == x + 1,
{
    x + 1
}

/// Adds two numbers.
pub fn add(a: i32, b: i32) -> (r: i32)
    requires
        i32::MIN <= a + b <= i32::MAX,
    ensures
        r == a + b,
{
    a + b
}

/// Reports whether `n` is even, via an explicit comparison.
pub fn is_even1(n: u32) -> (r: bool)
    ensures
        r == (n % 2 == 0),
{
    return n % 2 == 0;
}

/// Reports whether `n` is even, as a bare expression.
pub fn is_even2(n: u32) -> (r: bool)
    ensures
        r == (n % 2 == 0),
{
    n % 2 == 0
}

/// Returns the smaller of two numbers.
pub fn min(a: i32, b: i32) -> (r: i32)
    ensures
        r == if a < b { a } else { b },
{
    if a < b {
        a
    } else {
        b
    }
}

/// Magnitude of `d`, as used by truncating division.
pub open spec fn abs_of(d: int) -> int {
    if d < 0 {
        -d
    } else {
        d
    }
}

/// Quotient of division truncated toward zero, as the `/` operator of
/// the machine computes it on signed integers.
pub open spec fn tdiv(n: int, d: int) -> int
    recommends
        d != 0,
{
    if (n >= 0) == (d >= 0) {
        abs_of(n) / abs_of(d)
    } else {
        -(abs_of(n) / abs_of(d))
    }
}

/// Remainder of division truncated toward zero; it carries the sign of
/// the dividend.
pub open spec fn tmod(n: int, d: int) -> int
    recommends
        d != 0,
{
    if n >= 0 {
        n % abs_of(d)
    } else {
        -((-n) % abs_of(d))
    }
}

/// Quotient and remainder of `n` divided by `d`, truncated toward
/// zero; division by zero and the one overflowing case are ruled out
/// up front.
pub fn divmod(n: i32, d: i32) -> (r: (i32, i32))
    requires
        d != 0,
        !(n == i32::MIN && d == -1),
    ensures
        r.0 == tdiv(n as int, d as int),
        r.1 == tmod(n as int, d as int),
{
    let na: i64 = if n < 0 {
        -(n as i64)
    } else {
        n as i64
    };
    let da: i64 = if d < 0 {
        -(d as i64)
    } else {
        d as i64
    };
    let q64: i64 = na / da;
    let r64: i64 = na % da;
    proof {
        if da >= 2 {
            vstd::arithmetic::div_mod::lemma_div_is_ordered_by_denominator(na as int, 2, da as int);
            vstd::arithmetic::div_mod::lemma_div_nonincreasing(na as int, 2);
        }
    }
    let q: i32 = if (n < 0) != (d < 0) {
        (-q64) as i32
    } else {
        q64 as i32
    };
    let r: i32 = if n < 0 {
        (-r64) as i32
    } else {
        r64 as i32
    };
    (q, r)
}

/// Quotient and remainder of `n` divided by `d`, with division by zero
/// reported as an error instead of a panic.
pub fn divmod_result(n: i32, d: i32) -> (r: Result<(i32, i32), String>)
    requires
        !(n == i32::MIN && d == -1),
    ensures
        d == 0 ==> (r matches Err(e) && e@ == "division by zero"@),
        d != 0 ==> (r matches Ok(q) && q.0 == tdiv(n as int, d as int) && q.1 == tmod(
            n as int,
            d as int,
        )),
{
    if d == 0 {
        Err("division by zero".to_owned())
    } else {
        Ok(divmod(n, d))
    }
}

/// Integer division that signals a zero denominator with `None`.
pub fn divide(numerator: i32, denominator: i32) -> (r: Option<i32>)
    requires
        !(numerator == i32::MIN && denominator == -1),
    ensures
        denominator == 0 ==> r is None,
        denominator != 0 ==> (r matches Some(q) && q == tdiv(numerator as int, denominator as int)),
{
    if denominator == 0 {
        None
    } else {
        Some(divmod(numerator, denominator).0)
    }
}

/// Element of `v` at `idx`; out of range falls back to the first
/// element, and an empty vector yields zero.
pub fn get_val(v: &Vec<i32>, idx: usize) -> (r: i32)
    ensures
        idx < v@.len() ==> r == v@[idx as int],
        idx >= v@.len() && v@.len() > 0 ==> r == v@[0],
        v@.len() == 0 ==> r == 0,
{
    if idx < v.len() {
        v[idx]
    } else if v.len() > 0 {
        v[0]
    } else {
        0
    }
}

/// The smaller of two values of any ordered type; when the type's
/// order is underspecified, the second value is returned.
pub fn min_generic<T: PartialOrd>(a: T, b: T) -> (r: T)
    ensures
        T::obeys_partial_cmp_spec() ==> r == (if a.partial_cmp_spec(&b) == Some(
            core::cmp::Ordering::Less,
        ) {
            a
        } else {
            b
        }),
{
    if a < b {
        a
    } else {
        b
    }
}

/// The sum and the difference of two values of any arithmetic type.
pub fn add_sub<T>(a: T, b: T) -> (r: (T, T)) where
    T: core::ops::Add<Output = T> + core::ops::Sub<Output = T> + Copy,

    requires
        a.add_req(b),
        a.sub_req(b),
    ensures
        T::obeys_add_spec() ==> r.0 == a.add_spec(b),
        T::obeys_sub_spec() ==> r.1 == a.sub_spec(b),
{
    return (a + b, a - b);
}

} // verus!
