//! Primality testing by trial division and extraction of the largest
//! prime factor, together with the divisibility lemmas (including
//! Euclid's lemma) that justify them.

use vstd::arithmetic::div_mod::{lemma_fundamental_div_mod, lemma_mod_multiples_basic};
use vstd::arithmetic::mul::{lemma_mul_inequality, lemma_mul_is_associative};
use vstd::prelude::*;

verus! {

/// `d` divides `n` evenly.
pub open spec fn divides(d: int, n: int) -> bool
    recommends
        d >= 1,
{
    n % d == 0
}

/// `n` is prime: at least 2, and divisible by no number strictly
/// between 1 and itself.
pub open spec fn prime(n: int) -> bool {
    n >= 2 && forall|d: int| 2 <= d < n ==> !divides(d, n)
}

/// A number that divides evenly is the divisor times the quotient.
proof fn lemma_divides_witness(d: int, n: int)
    requires
        d >= 1,
        divides(d, n),
    ensures
        n == d * (n / d),
{
    lemma_fundamental_div_mod(n, d);
}

/// A product is divisible by its right factor.
proof fn lemma_product_divides(k: int, d: int)
    requires
        d >= 1,
    ensures
        divides(d, k * d),
{
    lemma_mod_multiples_basic(k, d);
}

/// Divisibility is transitive.
proof fn lemma_divides_transitive(a: int, b: int, c: int)
    requires
        a >= 1,
        b >= 1,
        divides(a, b),
        divides(b, c),
    ensures
        divides(a, c),
{
    lemma_divides_witness(a, b);
    lemma_divides_witness(b, c);
    let kb = b / a;
    let kc = c / b;
    assert(c == (a * kb) * kc);
    lemma_mul_is_associative(a, kb, kc);
    assert(c == (kb * kc) * a) by (nonlinear_arith)
        requires
            c == a * (kb * kc),
    ;
    lemma_product_divides(kb * kc, a);
}

/// A divisor of a positive number is no larger than it.
proof fn lemma_divisor_le(d: int, n: int)
    requires
        d >= 1,
        n >= 1,
        divides(d, n),
    ensures
        d <= n,
{
    lemma_divides_witness(d, n);
    let k = n / d;
    assert(k >= 1) by (nonlinear_arith)
        requires
            n == d * k,
            n >= 1,
            d >= 1,
    ;
    lemma_mul_inequality(1, k, d);
}

/// The descent step of Euclid's lemma: a prime dividing `a * b` with
/// `a` strictly between 0 and the prime must divide `b`.
proof fn lemma_euclid_descent(p: int, a: int, b: int)
    requires
        prime(p),
        1 <= a < p,
        b >= 0,
        divides(p, a * b),
    ensures
        divides(p, b),
    decreases a,
{
    if a == 1 {
        assert(a * b == b);
    } else {
        let q = p / a;
        let r = p % a;
        lemma_fundamental_div_mod(p, a);
        assert(0 <= r < a);
        assert(!divides(a, p));  // a prime has no divisor strictly inside (1, p)
        assert(r != 0);
        lemma_divides_witness(p, a * b);
        let m = (a * b) / p;
        // r * b == p * (b - q * m), so p divides r * b
        assert(r * b == p * (b - q * m)) by (nonlinear_arith)
            requires
                p == a * q + r,
                a * b == p * m,
        ;
        assert((b - q * m) * p == p * (b - q * m)) by (nonlinear_arith);
        lemma_product_divides(b - q * m, p);
        assert(r * b >= 0) by (nonlinear_arith)
            requires
                r >= 1,
                b >= 0,
        ;
        lemma_euclid_descent(p, r, b);
    }
}

/// A number with an even divisor is itself even.
proof fn lemma_even_divides(d: int, n: int)
    requires
        d >= 2,
        d % 2 == 0,
        n >= 0,
        divides(d, n),
    ensures
        divides(2, n),
{
    lemma_divides_witness(d, n);
    lemma_fundamental_div_mod(d, 2);
    assert(n == ((d / 2) * (n / d)) * 2) by (nonlinear_arith)
        requires
            n == d * (n / d),
            d == 2 * (d / 2),
    ;
    lemma_product_divides((d / 2) * (n / d), 2);
}

/// Euclid's lemma: a prime dividing a product of two non-negative
/// numbers divides one of the factors.
pub proof fn lemma_euclid(p: int, a: int, b: int)
    requires
        prime(p),
        a >= 0,
        b >= 0,
        divides(p, a * b),
    ensures
        divides(p, a) || divides(p, b),
{
    let a2 = a % p;
    lemma_fundamental_div_mod(a, p);
    if a2 == 0 {
    } else {
        let k = a / p;
        lemma_divides_witness(p, a * b);
        let m = (a * b) / p;
        assert(a2 * b == p * (m - k * b)) by (nonlinear_arith)
            requires
                a == p * k + a2,
                a * b == p * m,
        ;
        assert((m - k * b) * p == p * (m - k * b)) by (nonlinear_arith);
        lemma_product_divides(m - k * b, p);
        assert(a2 * b >= 0) by (nonlinear_arith)
            requires
                a2 >= 1,
                b >= 0,
        ;
        lemma_euclid_descent(p, a2, b);
    }
}

/// Reports whether `t` is prime, by trial division over odd candidate
/// divisors up to the square root of `t`. The number 2 is treated as
/// prime, per the mathematical definition.
pub fn is_prime(t: u32) -> (r: bool)
    ensures
        r == prime(t as int),
{
    if t < 2 {
        return false;
    }
    if t == 2 {
        return true;
    }
    if t % 2 == 0 {
        assert(divides(2, t as int));
        return false;
    }
    let mut i: u32 = 3;
    while i <= t / i
        invariant
            3 <= t,
            t as int % 2 != 0,
            3 <= i,
            i % 2 == 1,
            forall|d: int| 2 <= d < i ==> !divides(d, t as int),
        decreases t as int + 2 - i,
    {
        proof {
            lemma_fundamental_div_mod(t as int, i as int);
            assert(i * i <= t) by (nonlinear_arith)
                requires
                    i <= t as int / (i as int),
                    t as int == (i as int) * (t as int / (i as int)) + t as int % (i as int),
                    t as int % (i as int) >= 0,
                    i >= 3,
            ;
        }
        assert(i < t) by (nonlinear_arith)
            requires
                i * i <= t,
                3 <= i,
        ;
        if t % i == 0 {
            assert(divides(i as int, t as int));
            return false;
        }
        proof {
            // the skipped even candidate cannot divide the odd `t`
            if divides(i + 1, t as int) {
                lemma_even_divides(i + 1, t as int);
            }
        }
        i = i + 2;
    }
    proof {
        lemma_fundamental_div_mod(t as int, i as int);
        assert(i * i > t) by (nonlinear_arith)
            requires
                i > t as int / (i as int),
                t as int == (i as int) * (t as int / (i as int)) + t as int % (i as int),
                t as int % (i as int) < i,
                t as int % (i as int) >= 0,
                i >= 3,
        ;
        // any divisor of `t` has a cofactor below the square root,
        // and every candidate up to there has been ruled out
        assert forall|d: int| 2 <= d < t implies !divides(d, t as int) by {
            if divides(d, t as int) {
                if d >= i {
                    lemma_divides_witness(d, t as int);
                    let e = t as int / d;
                    vstd::arithmetic::div_mod::lemma_div_non_zero(t as int, d);
                    assert(e >= 1);
                    assert(e != 1) by (nonlinear_arith)
                        requires
                            t == d * e,
                            d < t,
                            e >= 1,
                    ;
                    lemma_product_divides(d, e);
                    assert(t as int == d * e);
                    if e >= i {
                        lemma_mul_inequality(i as int, d, e);
                        lemma_mul_inequality(i as int, e, i as int);
                        assert(e * (i as int) == (i as int) * e) by (nonlinear_arith);
                        assert(false);
                    }
                    assert(!divides(e, t as int));
                }
            }
        }
    }
    true
}

/// The largest prime factor of `n`; for `n == 1`, where no factor is
/// ever divided out, the answer is 1.
pub fn max_factor(n: u64) -> (r: u64)
    requires
        n >= 1,
    ensures
        n == 1 ==> r == 1,
        n >= 2 ==> prime(r as int) && divides(r as int, n as int),
        forall|q: int| prime(q) && divides(q, n as int) ==> q <= r,
{
    if n == 1 {
        proof {
            assert forall|q: int| prime(q) && divides(q, 1) implies q <= 1 by {
                lemma_divisor_le(q, 1);
            }
        }
        return 1;
    }
    let mut cur: u64 = n;
    let mut p: u64 = 2;
    loop
        invariant
            2 <= p <= cur <= n,
            n >= 2,
            divides(cur as int, n as int),
            forall|d: int| 2 <= d < p ==> !divides(d, cur as int),
            forall|q: int|
                prime(q) && divides(q, n as int) ==> q <= p || divides(q, cur as int),
        ensures
            2 <= p <= cur <= n,
            divides(cur as int, n as int),
            (cur as int) < 2 * p,
            forall|d: int| 2 <= d < p ==> !divides(d, cur as int),
            forall|q: int|
                prime(q) && divides(q, n as int) ==> q <= p || divides(q, cur as int),
        decreases cur, cur as int - p,
    {
        let q = cur / p;
        let rem = cur % p;
        if q == 1 {
            proof {
                lemma_fundamental_div_mod(cur as int, p as int);
            }
            break;
        }
        if rem == 0 {
            proof {
                lemma_divides_witness(p as int, cur as int);
                assert(cur as int == p * q);
                vstd::arithmetic::div_mod::lemma_div_non_zero(cur as int, p as int);
                assert(q >= 2);
                lemma_product_divides(p as int, q as int);
                assert(divides(q as int, cur as int));
                lemma_divides_transitive(q as int, cur as int, n as int);
                // the new value keeps every divisor-free interval
                assert forall|d: int| 2 <= d < p implies !divides(d, q as int) by {
                    if divides(d, q as int) {
                        lemma_divides_transitive(d, q as int, cur as int);
                    }
                }
                assert(p <= q);
                // a prime factor of n above p survives the division
                assert forall|qq: int|
                    prime(qq) && divides(qq, n as int) && qq > p implies divides(
                    qq,
                    q as int,
                ) by {
                    assert(divides(qq, cur as int));
                    lemma_euclid(qq, p as int, q as int);
                    if divides(qq, p as int) {
                        lemma_divisor_le(qq, p as int);
                    }
                }
                assert(q < cur) by (nonlinear_arith)
                    requires
                        cur == p * q,
                        p >= 2,
                        q >= 2,
                ;
            }
            cur = q;
        } else {
            proof {
                lemma_fundamental_div_mod(cur as int, p as int);
                vstd::arithmetic::div_mod::lemma_div_non_zero(cur as int, p as int);
                assert(cur as int >= 2 * p) by (nonlinear_arith)
                    requires
                        cur as int == p * q + rem,
                        q >= 2,
                        rem >= 0,
                        p >= 2,
                ;
            }
            p = p + 1;
        }
    }
    proof {
        // `cur` is prime: a proper divisor below p is ruled out by the
        // scan, and one at p or above forces a cofactor of at least 2
        assert forall|d: int| 2 <= d < cur implies !divides(d, cur as int) by {
            if divides(d, cur as int) && d >= p {
                lemma_divides_witness(d, cur as int);
                let e = cur as int / d;
                vstd::arithmetic::div_mod::lemma_div_non_zero(cur as int, d);
                assert(e >= 1);
                assert(e != 1) by (nonlinear_arith)
                    requires
                        cur == d * e,
                        d < cur,
                        e >= 1,
                ;
                assert(false) by (nonlinear_arith)
                    requires
                        cur == d * e,
                        d >= p,
                        e >= 2,
                        cur < 2 * p,
                ;
            }
        }
        assert(prime(cur as int));
        assert forall|q: int| prime(q) && divides(q, n as int) implies q <= cur by {
            if divides(q, cur as int) {
                lemma_divisor_le(q, cur as int);
            }
        }
    }
    cur
}

} // verus!
