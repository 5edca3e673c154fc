//! The filter/map/reduce pipeline over bounded integer sequences: an
//! inclusive range or a vector is traversed once, in ascending element
//! order, and reduced to a sum, count, product, maximum, or collected
//! list.

use crate::predicate::{Selector, Transform};
use vstd::prelude::*;

verus! {

/// The ascending sequence of integers of the inclusive range
/// `[lo, hi]`; empty when `lo > hi`.
pub open spec fn range_seq(lo: u64, hi: u64) -> Seq<u64>
    decreases hi - lo,
{
    if lo > hi {
        Seq::empty()
    } else if lo == hi {
        seq![lo]
    } else {
        seq![lo] + range_seq((lo + 1) as u64, hi)
    }
}

/// Length and contents of `range_seq`: element `k` is `lo + k`.
pub proof fn lemma_range_seq(lo: u64, hi: u64)
    ensures
        lo > hi ==> range_seq(lo, hi).len() == 0,
        lo <= hi ==> range_seq(lo, hi).len() == hi - lo + 1,
        forall|k: int|
            0 <= k < range_seq(lo, hi).len() ==> #[trigger] range_seq(lo, hi)[k] == lo + k,
    decreases hi - lo,
{
    if lo < hi {
        lemma_range_seq((lo + 1) as u64, hi);
    }
}

/// The sum of a sequence of machine words, as an unbounded integer.
pub open spec fn seq_sum(s: Seq<u64>) -> int
    decreases s.len(),
{
    if s.len() == 0 {
        0
    } else {
        seq_sum(s.drop_last()) + s.last()
    }
}

/// The product of a sequence of machine words, as an unbounded
/// integer; the empty product is 1.
pub open spec fn seq_product(s: Seq<u64>) -> int
    decreases s.len(),
{
    if s.len() == 0 {
        1
    } else {
        seq_product(s.drop_last()) * s.last()
    }
}

/// A sum of machine words is never negative.
pub proof fn lemma_seq_sum_nonneg(s: Seq<u64>)
    ensures
        seq_sum(s) >= 0,
    decreases s.len(),
{
    if s.len() > 0 {
        lemma_seq_sum_nonneg(s.drop_last());
    }
}

/// A product of machine words is never negative.
pub proof fn lemma_seq_product_nonneg(s: Seq<u64>)
    ensures
        seq_product(s) >= 0,
    decreases s.len(),
{
    if s.len() > 0 {
        lemma_seq_product_nonneg(s.drop_last());
        assert(seq_product(s) >= 0) by (nonlinear_arith)
            requires
                seq_product(s) == seq_product(s.drop_last()) * s.last(),
                seq_product(s.drop_last()) >= 0,
                s.last() >= 0,
        ;
    }
}

/// Collects the inclusive range `[lo, hi]` into a vector, in ascending
/// order.
pub fn collect_range(lo: u64, hi: u64) -> (r: Vec<u64>)
    ensures
        r@ == range_seq(lo, hi),
{
    let mut r: Vec<u64> = Vec::new();
    proof {
        lemma_range_seq(lo, hi);
    }
    if lo > hi {
        assert(r@ =~= range_seq(lo, hi));
        return r;
    }
    let mut i: u64 = lo;
    loop
        invariant_except_break
            r@.len() == i - lo,
        invariant
            lo <= i <= hi,
            lo <= hi,
            forall|k: int| 0 <= k < r@.len() ==> #[trigger] r@[k] == lo + k,
        ensures
            r@.len() == hi - lo + 1,
            forall|k: int| 0 <= k < r@.len() ==> #[trigger] r@[k] == lo + k,
        decreases hi - i,
    {
        r.push(i);
        if i == hi {
            break;
        }
        i = i + 1;
    }
    proof {
        lemma_range_seq(lo, hi);
        assert(r@ =~= range_seq(lo, hi));
    }
    r
}

/// The subsequence of `s` that the test `p` accepts, in order.
pub open spec fn kept<P: Selector>(p: P, s: Seq<u64>) -> Seq<u64> {
    s.filter(|x: u64| p.holds(x))
}

/// Splitting a sequence splits its sum.
pub proof fn lemma_seq_sum_split(s: Seq<u64>, k: int)
    requires
        0 <= k <= s.len(),
    ensures
        seq_sum(s) == seq_sum(s.take(k)) + seq_sum(s.skip(k)),
    decreases s.len(),
{
    if k == s.len() {
        assert(s.take(k) =~= s);
        assert(s.skip(k) =~= Seq::<u64>::empty());
    } else {
        let dl = s.drop_last();
        lemma_seq_sum_split(dl, k);
        assert(s.take(k) =~= dl.take(k));
        assert(s.skip(k).drop_last() =~= dl.skip(k));
        assert(s.skip(k).last() == s.last());
        assert(s.skip(k).len() > 0);
    }
}

/// A prefix never sums to more than the whole sequence.
pub proof fn lemma_seq_sum_take_le(s: Seq<u64>, k: int)
    requires
        0 <= k <= s.len(),
    ensures
        seq_sum(s.take(k)) <= seq_sum(s),
{
    lemma_seq_sum_split(s, k);
    lemma_seq_sum_nonneg(s.skip(k));
}

/// Keeps, in order, the elements of `v` that the test accepts; the
/// whole vector is scanned.
pub fn filter_vec<P: Selector>(v: &Vec<u64>, p: &P) -> (r: Vec<u64>)
    ensures
        r@ == kept(*p, v@),
{
    let mut r: Vec<u64> = Vec::new();
    proof {
        reveal(Seq::filter);
        assert(kept(*p, v@.take(0)) =~= Seq::<u64>::empty());
    }
    for idx in 0..v.len()
        invariant
            r@ == kept(*p, v@.take(idx as int)),
        decreases v.len() - idx,
    {
        proof {
            reveal(Seq::filter);
            assert(v@.take(idx + 1).drop_last() =~= v@.take(idx as int));
            assert(v@.take(idx + 1).last() == v@[idx as int]);
            if p.holds(v@[idx as int]) {
                assert(kept(*p, v@.take(idx + 1)) == kept(*p, v@.take(idx as int)).push(
                    v@[idx as int],
                ));
            } else {
                assert(kept(*p, v@.take(idx + 1)) == kept(*p, v@.take(idx as int)));
            }
        }
        if p.eval(v[idx]) {
            r.push(v[idx]);
        }
    }
    proof {
        assert(v@.take(v@.len() as int) =~= v@);
    }
    r
}

/// Adds up all elements of `v`; the caller vouches that the total fits
/// in a machine word.
pub fn sum_vec(v: &Vec<u64>) -> (r: u64)
    requires
        seq_sum(v@) <= u64::MAX,
    ensures
        r == seq_sum(v@),
{
    let mut total: u64 = 0;
    for idx in 0..v.len()
        invariant
            seq_sum(v@) <= u64::MAX,
            total == seq_sum(v@.take(idx as int)),
        decreases v.len() - idx,
    {
        proof {
            assert(v@.take(idx + 1).drop_last() =~= v@.take(idx as int));
            assert(v@.take(idx + 1).last() == v@[idx as int]);
            lemma_seq_sum_take_le(v@, idx + 1);
        }
        total = total + v[idx];
    }
    proof {
        assert(v@.take(v@.len() as int) =~= v@);
    }
    total
}

/// Multiplies all elements of `v`; an empty vector yields 1, and a
/// true product beyond the machine word comes back as `None`.
pub fn product_vec(v: &Vec<u64>) -> (r: Option<u64>)
    ensures
        seq_product(v@) <= u64::MAX ==> (r matches Some(x) && x == seq_product(v@)),
        seq_product(v@) > u64::MAX ==> r is None,
{
    let mut acc: u64 = 1;
    let mut over: bool = false;
    for idx in 0..v.len()
        invariant
            !over ==> acc == seq_product(v@.take(idx as int)),
            over ==> seq_product(v@.take(idx as int)) > u64::MAX,
        decreases v.len() - idx,
    {
        let x = v[idx];
        proof {
            assert(v@.take(idx + 1).drop_last() =~= v@.take(idx as int));
            assert(v@.take(idx + 1).last() == v@[idx as int]);
            lemma_seq_product_nonneg(v@.take(idx as int));
        }
        if x == 0 {
            proof {
                assert(seq_product(v@.take(idx + 1)) == 0) by (nonlinear_arith)
                    requires
                        seq_product(v@.take(idx + 1)) == seq_product(v@.take(idx as int)) * 0,
                ;
            }
            acc = 0;
            over = false;
        } else if over {
            proof {
                assert(seq_product(v@.take(idx + 1)) > u64::MAX) by (nonlinear_arith)
                    requires
                        seq_product(v@.take(idx + 1)) == seq_product(v@.take(idx as int)) * x,
                        seq_product(v@.take(idx as int)) > u64::MAX,
                        x >= 1,
                ;
            }
        } else {
            match acc.checked_mul(x) {
                Some(y) => {
                    acc = y;
                },
                None => {
                    over = true;
                },
            }
        }
    }
    proof {
        assert(v@.take(v@.len() as int) =~= v@);
    }
    if over {
        None
    } else {
        Some(acc)
    }
}

/// Counts the elements of `v` that the test accepts.
pub fn count_matching<P: Selector>(v: &Vec<u64>, p: &P) -> (r: usize)
    ensures
        r == kept(*p, v@).len(),
{
    let f = filter_vec(v, p);
    f.len()
}

/// The largest element of `v`, or `None` when `v` is empty: an empty
/// maximum has no meaningful default.
pub fn max_vec(v: &Vec<u64>) -> (r: Option<u64>)
    ensures
        v@.len() == 0 ==> r is None,
        v@.len() > 0 ==> (r matches Some(m) && v@.contains(m) && forall|k: int|
            0 <= k < v@.len() ==> v@[k] <= m),
{
    if v.len() == 0 {
        return None;
    }
    let mut m = v[0];
    for idx in 1..v.len()
        invariant
            v@.len() > 0,
            exists|j: int| 0 <= j < v@.len() && v@[j] == m,
            forall|k: int| 0 <= k < idx ==> v@[k] <= m,
        decreases v.len() - idx,
    {
        if v[idx] > m {
            m = v[idx];
        }
    }
    proof {
        let j = choose|j: int| 0 <= j < v@.len() && v@[j] == m;
        assert(v@.contains(m));
    }
    Some(m)
}

/// The first `n` elements of `v`, or all of them when `v` is shorter.
pub fn take_vec(v: &Vec<u64>, n: usize) -> (r: Vec<u64>)
    ensures
        n <= v@.len() ==> r@ == v@.take(n as int),
        n > v@.len() ==> r@ == v@,
{
    let end = if n <= v.len() {
        n
    } else {
        v.len()
    };
    let mut r: Vec<u64> = Vec::new();
    for idx in 0..end
        invariant
            end <= v@.len(),
            r@ == v@.take(idx as int),
        decreases end - idx,
    {
        proof {
            assert(v@.take(idx + 1).drop_last() =~= v@.take(idx as int));
            assert(v@.take(idx + 1).last() == v@[idx as int]);
        }
        r.push(v[idx]);
    }
    proof {
        if n > v@.len() {
            assert(v@.take(v@.len() as int) =~= v@);
        }
    }
    r
}

/// The longest prefix of `v` whose elements all pass the test; the
/// scan stops at the first element that fails, unlike a filter, which
/// scans everything.
pub fn take_while_vec<P: Selector>(v: &Vec<u64>, p: &P) -> (r: Vec<u64>)
    ensures
        r@ == v@.take(r@.len() as int),
        forall|k: int| 0 <= k < r@.len() ==> p.holds(#[trigger] v@[k]),
        r@.len() == v@.len() || !p.holds(v@[r@.len() as int]),
{
    let mut r: Vec<u64> = Vec::new();
    for idx in 0..v.len()
        invariant
            r@ == v@.take(idx as int),
            forall|k: int| 0 <= k < idx ==> p.holds(#[trigger] v@[k]),
        decreases v.len() - idx,
    {
        if !p.eval(v[idx]) {
            return r;
        }
        proof {
            assert(v@.take(idx + 1).drop_last() =~= v@.take(idx as int));
            assert(v@.take(idx + 1).last() == v@[idx as int]);
        }
        r.push(v[idx]);
    }
    proof {
        assert(v@.take(v@.len() as int) =~= v@);
    }
    r
}

/// Every `step`-th element of `v`, beginning with the first.
pub fn step_by_vec(v: &Vec<u64>, step: usize) -> (r: Vec<u64>)
    requires
        step >= 1,
    ensures
        r@.len() == (v@.len() + step - 1) / (step as int),
        forall|k: int| 0 <= k < r@.len() ==> r@[k] == v@[k * (step as int)],
{
    let mut r: Vec<u64> = Vec::new();
    if v.len() == 0 {
        proof {
            vstd::arithmetic::div_mod::lemma_basic_div(step - 1, step as int);
        }
        return r;
    }
    let mut i: usize = 0;
    proof {
        assert(r@.len() * step == 0) by (nonlinear_arith)
            requires
                r@.len() == 0,
        ;
    }
    loop
        invariant_except_break
            i == r@.len() * step,
        invariant
            step >= 1,
            i < v@.len(),
            forall|k: int| 0 <= k < r@.len() ==> r@[k] == v@[k * (step as int)],
        ensures
            forall|k: int| 0 <= k < r@.len() ==> r@[k] == v@[k * (step as int)],
            r@.len() >= 1,
            (r@.len() - 1) * step < v@.len() <= r@.len() * step,
        decreases v.len() - i,
    {
        let ghost oldlen = r@.len();
        r.push(v[i]);
        proof {
            assert(oldlen * step + step == (oldlen + 1) * step) by (nonlinear_arith);
            assert(r@[oldlen as int] == v@[oldlen * (step as int)]);
        }
        if v.len() - i <= step {
            break;
        }
        i = i + step;
    }
    proof {
        let n = r@.len() as int;
        let len = v@.len() as int;
        let s = step as int;
        assert(len + s - 1 >= n * s) by (nonlinear_arith)
            requires
                (n - 1) * s < len,
                s >= 1,
        ;
        assert(len + s - 1 < (n + 1) * s) by (nonlinear_arith)
            requires
                len <= n * s,
                s >= 1,
        ;
        vstd::arithmetic::div_mod::lemma_fundamental_div_mod_converse(
            len + s - 1,
            s,
            n,
            len + s - 1 - n * s,
        );
    }
    r
}

/// Replaces each element of `v` by its image under the transform; the
/// caller vouches that every image fits in a machine word.
pub fn map_vec<T: Transform>(v: &Vec<u64>, t: &T) -> (r: Vec<u64>)
    requires
        forall|k: int| 0 <= k < v@.len() ==> 0 <= #[trigger] t.image(v@[k]) <= u64::MAX,
    ensures
        r@.len() == v@.len(),
        forall|k: int| 0 <= k < v@.len() ==> r@[k] == t.image(v@[k]),
{
    let mut r: Vec<u64> = Vec::new();
    for idx in 0..v.len()
        invariant
            forall|k: int| 0 <= k < v@.len() ==> 0 <= #[trigger] t.image(v@[k]) <= u64::MAX,
            r@.len() == idx,
            forall|k: int| 0 <= k < idx ==> r@[k] == t.image(v@[k]),
        decreases v.len() - idx,
    {
        r.push(t.apply(v[idx]));
    }
    r
}


/// Collects the elements of the inclusive range `[lo, hi]` that the
/// test accepts, in ascending order.
pub fn filter_range<P: Selector>(lo: u64, hi: u64, p: &P) -> (r: Vec<u64>)
    ensures
        r@ == kept(*p, range_seq(lo, hi)),
{
    let all = collect_range(lo, hi);
    filter_vec(&all, p)
}

/// Sums the elements of `[lo, hi]` that the test accepts; the caller
/// vouches that the total fits in a machine word.
pub fn sum_in_range<P: Selector>(lo: u64, hi: u64, p: &P) -> (r: u64)
    requires
        seq_sum(kept(*p, range_seq(lo, hi))) <= u64::MAX,
    ensures
        r == seq_sum(kept(*p, range_seq(lo, hi))),
{
    let f = filter_range(lo, hi, p);
    sum_vec(&f)
}

/// Counts the elements of `[lo, hi]` that the test accepts.
pub fn count_in_range<P: Selector>(lo: u64, hi: u64, p: &P) -> (r: usize)
    ensures
        r == kept(*p, range_seq(lo, hi)).len(),
{
    let all = collect_range(lo, hi);
    count_matching(&all, p)
}

/// Multiplies the elements of `[lo, hi]` that the test accepts; an
/// empty selection yields 1, and a true product beyond the machine
/// word comes back as `None`.
pub fn product_in_range<P: Selector>(lo: u64, hi: u64, p: &P) -> (r: Option<u64>)
    ensures
        seq_product(kept(*p, range_seq(lo, hi))) <= u64::MAX ==> (r matches Some(x) && x
            == seq_product(kept(*p, range_seq(lo, hi)))),
        seq_product(kept(*p, range_seq(lo, hi))) > u64::MAX ==> r is None,
{
    let f = filter_range(lo, hi, p);
    product_vec(&f)
}

/// The largest element of `[lo, hi]` that the test accepts, or `None`
/// when nothing is accepted: an empty maximum has no meaningful
/// default.
pub fn max_in_range<P: Selector>(lo: u64, hi: u64, p: &P) -> (r: Option<u64>)
    ensures
        kept(*p, range_seq(lo, hi)).len() == 0 ==> r is None,
        kept(*p, range_seq(lo, hi)).len() > 0 ==> (r matches Some(m) && kept(
            *p,
            range_seq(lo, hi),
        ).contains(m) && forall|k: int|
            0 <= k < kept(*p, range_seq(lo, hi)).len() ==> kept(*p, range_seq(lo, hi))[k] <= m),
{
    let f = filter_range(lo, hi, p);
    max_vec(&f)
}

/// Filtering with the identity test keeps every element: re-filtering
/// an already collected list with `AcceptAll` returns the same list.
pub proof fn lemma_accept_all_is_identity(s: Seq<u64>)
    ensures
        kept(crate::predicate::AcceptAll, s) == s,
    decreases s.len(),
{
    reveal(Seq::filter);
    if s.len() > 0 {
        lemma_accept_all_is_identity(s.drop_last());
        assert(kept(crate::predicate::AcceptAll, s) =~= s);
    }
}

/// An empty range, one with its lower bound above its upper bound,
/// yields the empty selection under every test, and so the neutral
/// sum and product; the maximum of an empty selection is refused by
/// `max_in_range` rather than defaulted.
pub proof fn lemma_empty_range_aggregates<P: Selector>(p: P, lo: u64, hi: u64)
    requires
        lo > hi,
    ensures
        range_seq(lo, hi) == Seq::<u64>::empty(),
        kept(p, range_seq(lo, hi)) == Seq::<u64>::empty(),
        seq_sum(kept(p, range_seq(lo, hi))) == 0,
        seq_product(kept(p, range_seq(lo, hi))) == 1,
{
    reveal(Seq::filter);
}


} // verus!
