//! Digit extraction from text and digit-window summation: a decimal
//! string is cut into non-overlapping chunks or overlapping sliding
//! windows of a fixed width, each window is parsed as a number, and
//! the parsed values are added up. Windows that fail to parse are
//! skipped; they never abort the whole aggregate.

use vstd::arithmetic::mul::lemma_mul_inequality;
use vstd::prelude::*;
use vstd::string::StringExecFns;

verus! {

/// `c` is a decimal digit, between `'0'` and `'9'`.
pub open spec fn is_digit(c: char) -> bool {
    48 <= c as int <= 57
}

/// The numeric value of a digit character.
pub open spec fn digit_val(c: char) -> int
    recommends
        is_digit(c),
{
    c as int - 48
}

/// The digit values of `s`, in order, with all other characters
/// dropped.
pub open spec fn digit_seq(s: Seq<char>) -> Seq<u32>
    decreases s.len(),
{
    if s.len() == 0 {
        Seq::empty()
    } else if is_digit(s.last()) {
        digit_seq(s.drop_last()).push(digit_val(s.last()) as u32)
    } else {
        digit_seq(s.drop_last())
    }
}

/// Every character of `w` is a decimal digit.
pub open spec fn all_digits(w: Seq<char>) -> bool {
    forall|k: int| 0 <= k < w.len() ==> is_digit(#[trigger] w[k])
}

/// The left-to-right decimal value of a digit string.
pub open spec fn digits_value(w: Seq<char>) -> int
    recommends
        all_digits(w),
    decreases w.len(),
{
    if w.len() == 0 {
        0
    } else {
        digits_value(w.drop_last()) * 10 + digit_val(w.last())
    }
}

/// What parsing a window of characters as a number yields: its decimal
/// value, provided the window is non-empty, all digits, and small
/// enough for the machine; `None` otherwise.
pub open spec fn window_val(w: Seq<char>) -> Option<u32> {
    if w.len() >= 1 && all_digits(w) && digits_value(w) <= u32::MAX {
        Some(digits_value(w) as u32)
    } else {
        None
    }
}

/// What the window of width `k` at `start` adds to an aggregate: its
/// parsed value, or 0 when it does not parse.
pub open spec fn window_contrib(s: Seq<char>, start: int, k: int) -> int
    recommends
        0 <= start,
        start + k <= s.len(),
{
    match window_val(s.subrange(start, start + k)) {
        Some(v) => v as int,
        None => 0,
    }
}

/// The value of a digit string is never negative.
proof fn lemma_digits_value_nonneg(w: Seq<char>)
    requires
        all_digits(w),
    ensures
        digits_value(w) >= 0,
    decreases w.len(),
{
    if w.len() > 0 {
        assert(all_digits(w.drop_last())) by {
            assert(forall|k: int| 0 <= k < w.len() - 1 ==> w.drop_last()[k] == w[k]);
        }
        lemma_digits_value_nonneg(w.drop_last());
        assert(digits_value(w.drop_last()) * 10 >= 0) by (nonlinear_arith)
            requires
                digits_value(w.drop_last()) >= 0,
        ;
    }
}

/// A prefix of a digit string never has a larger value than the whole.
proof fn lemma_digits_value_prefix_le(w: Seq<char>, j: int)
    requires
        all_digits(w),
        0 <= j <= w.len(),
    ensures
        digits_value(w.take(j)) <= digits_value(w),
    decreases w.len(),
{
    if j == w.len() {
        assert(w.take(j) =~= w);
    } else {
        assert(all_digits(w.drop_last())) by {
            assert(forall|k: int| 0 <= k < w.len() - 1 ==> w.drop_last()[k] == w[k]);
        }
        assert(w.take(j) =~= w.drop_last().take(j));
        lemma_digits_value_prefix_le(w.drop_last(), j);
        lemma_digits_value_nonneg(w.drop_last());
        assert(digits_value(w.drop_last()) * 10 >= digits_value(w.drop_last())) by (nonlinear_arith)
            requires
                digits_value(w.drop_last()) >= 0,
        ;
    }
}

/// The numbers formed by the digits of `s`, every other character
/// dropped, in their original order.
pub fn get_number(s: &str) -> (r: Vec<u32>)
    ensures
        r@ == digit_seq(s@),
{
    let n = s.unicode_len();
    let mut r: Vec<u32> = Vec::new();
    for i in 0..n
        invariant
            n == s@.len(),
            r@ == digit_seq(s@.take(i as int)),
        decreases n - i,
    {
        let c = s.get_char(i);
        let u = c as u32;
        proof {
            assert(s@.take(i + 1).drop_last() =~= s@.take(i as int));
            assert(s@.take(i + 1).last() == s@[i as int]);
        }
        if 48 <= u && u <= 57 {
            r.push(u - 48);
        }
    }
    proof {
        assert(s@.take(s@.len() as int) =~= s@);
    }
    r
}

/// Parses the `k` characters of `s` that begin at `start` as a
/// number, as `window_val` describes.
fn parse_window(s: &str, start: usize, k: usize) -> (r: Option<u32>)
    requires
        k >= 1,
        start + k <= s@.len(),
        start + k <= usize::MAX,
    ensures
        r == window_val(s@.subrange(start as int, start as int + k as int)),
{
    let ghost w = s@.subrange(start as int, start as int + k as int);
    let mut acc: u64 = 0;
    for j in 0..k
        invariant
            w == s@.subrange(start as int, start as int + k as int),
            w.len() == k,
            k >= 1,
            start + k <= s@.len(),
            start + k <= usize::MAX,
            all_digits(w.take(j as int)),
            acc == digits_value(w.take(j as int)),
            acc <= u32::MAX,
        decreases k - j,
    {
        let c = s.get_char(start + j);
        let u = c as u32;
        proof {
            assert(w[j as int] == s@[start + j]);
            assert(w.take(j + 1).drop_last() =~= w.take(j as int));
            assert(w.take(j + 1).last() == w[j as int]);
        }
        if u < 48 || u > 57 {
            proof {
                assert(!is_digit(w[j as int]));
            }
            return None;
        }
        acc = acc * 10 + ((u - 48) as u64);
        proof {
            assert(forall|t: int| 0 <= t < j + 1 ==> w.take(j + 1)[t] == w[t]);
            assert(all_digits(w.take(j + 1)));
        }
        if acc > 0xFFFF_FFFF {
            proof {
                if all_digits(w) {
                    lemma_digits_value_prefix_le(w, j + 1);
                }
            }
            return None;
        }
    }
    proof {
        assert(w.take(k as int) =~= w);
    }
    Some(acc as u32)
}

/// The total of the first `n` non-overlapping chunks of width `k`:
/// chunk `i` starts at `i * k`, and a chunk that fails to parse adds
/// nothing.
pub open spec fn chunk_total(s: Seq<char>, k: int, n: int) -> int
    recommends
        k >= 1,
        n * k <= s.len(),
    decreases n,
{
    if n <= 0 {
        0
    } else {
        chunk_total(s, k, n - 1) + window_contrib(s, (n - 1) * k, k)
    }
}

/// The total of the first `n` sliding windows of width `k`: window
/// `i` starts at `i`, and a window that fails to parse adds nothing.
pub open spec fn sliding_total(s: Seq<char>, k: int, n: int) -> int
    recommends
        k >= 1,
        n + k <= s.len() + 1,
    decreases n,
{
    if n <= 0 {
        0
    } else {
        sliding_total(s, k, n - 1) + window_contrib(s, n - 1, k)
    }
}

/// A window contributes at most `u32::MAX`, and never less than 0.
proof fn lemma_window_contrib_bounds(s: Seq<char>, start: int, k: int)
    ensures
        0 <= window_contrib(s, start, k) <= u32::MAX,
{
}

/// Sums the numbers read from the non-overlapping chunks of width `k`
/// of `s`: the chunk starting at 0, then at `k`, and so on. A final
/// fragment shorter than `k` is dropped, and a chunk that fails to
/// parse is skipped.
pub fn chunk_sum(s: &str, k: usize) -> (r: u64)
    requires
        k >= 1,
        s@.len() <= u32::MAX,
    ensures
        r == chunk_total(s@, k as int, s@.len() as int / k as int),
{
    let n = s.unicode_len();
    let count = n / k;
    proof {
        vstd::arithmetic::div_mod::lemma_fundamental_div_mod(n as int, k as int);
        assert(count * k <= n) by (nonlinear_arith)
            requires
                n as int == k * (count as int) + n as int % k as int,
                n as int % k as int >= 0,
        ;
    }
    let mut total: u64 = 0;
    let mut i: usize = 0;
    while i < count
        invariant
            n == s@.len(),
            n <= u32::MAX,
            k >= 1,
            count == n as int / k as int,
            count * k <= n,
            total == chunk_total(s@, k as int, i as int),
            i <= count,
            total <= i * (u32::MAX as int),
        decreases count - i,
    {
        proof {
            lemma_mul_inequality(i as int + 1, count as int, k as int);
            assert((i as int + 1) * k == i * k + k) by (nonlinear_arith);
            assert(i * k >= 0) by (nonlinear_arith)
                requires
                    i >= 0,
                    k >= 1,
            ;
        }
        let start = i * k;
        let v = match parse_window(s, start, k) {
            Some(v) => v,
            None => 0,
        };
        proof {
            lemma_window_contrib_bounds(s@, start as int, k as int);
            assert(v as int == window_contrib(s@, i as int * k as int, k as int));
            lemma_mul_inequality(i as int + 1, count as int, u32::MAX as int);
            lemma_mul_inequality(count as int, u32::MAX as int, u32::MAX as int);
            assert((i as int + 1) * (u32::MAX as int) == i * (u32::MAX as int) + u32::MAX as int)
                by (nonlinear_arith);
        }
        total = total + (v as u64);
        i = i + 1;
    }
    total
}

/// Sums the numbers read from the sliding windows of width `k` of
/// `s`: one window starting at every offset from 0 through
/// `len - k`, so overlapping by all but one character. A window that
/// fails to parse is skipped, and a string shorter than `k` has no
/// windows at all.
pub fn window_sum(s: &str, k: usize) -> (r: u64)
    requires
        k >= 1,
        s@.len() <= u32::MAX,
    ensures
        s@.len() >= k ==> r == sliding_total(s@, k as int, s@.len() - k + 1),
        s@.len() < k ==> r == 0,
{
    let n = s.unicode_len();
    if n < k {
        return 0;
    }
    let count = n - k + 1;
    let mut total: u64 = 0;
    let mut i: usize = 0;
    while i < count
        invariant
            n == s@.len(),
            n <= u32::MAX,
            k >= 1,
            k <= n,
            count == n - k + 1,
            total == sliding_total(s@, k as int, i as int),
            i <= count,
            total <= i * (u32::MAX as int),
        decreases count - i,
    {
        let v = match parse_window(s, i, k) {
            Some(v) => v,
            None => 0,
        };
        proof {
            lemma_window_contrib_bounds(s@, i as int, k as int);
            assert(v as int == window_contrib(s@, i as int, k as int));
            lemma_mul_inequality(i as int + 1, count as int, u32::MAX as int);
            lemma_mul_inequality(count as int, u32::MAX as int, u32::MAX as int);
            assert((i as int + 1) * (u32::MAX as int) == i * (u32::MAX as int) + u32::MAX as int)
                by (nonlinear_arith);
        }
        total = total + (v as u64);
        i = i + 1;
    }
    total
}


/// Joins the two strings of `strs` into one, first then second.
pub fn concat(strs: &[String; 2]) -> (r: String)
    ensures
        r@ == strs@[0]@ + strs@[1]@,
{
    let mut new_strs = String::new();
    new_strs.append(strs[0].as_str());
    new_strs.append(strs[1].as_str());
    proof {
        assert(new_strs@ =~= strs@[0]@ + strs@[1]@);
    }
    new_strs
}


} // verus!
