//! A bounded counter that hands out successive values and stops after
//! one hundred.

use vstd::prelude::*;

verus! {

/// Counts upward one step at a time.
pub struct Counter {
    pub count: u32,
}

impl Counter {
    /// The next value, or `None` once the count has passed 100; the
    /// count itself never moves past 101.
    pub fn next(&mut self) -> (r: Option<u32>)
        ensures
            old(self).count > 100 ==> r is None && final(self).count == old(self).count,
            old(self).count <= 100 ==> final(self).count == old(self).count + 1 && r == Some(
                final(self).count,
            ),
    {
        if self.count > 100 {
            return None;
        } else {
            self.count += 1;
            return Some(self.count);
        }
    }
}

} // verus!
