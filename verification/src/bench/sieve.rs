use vstd::prelude::*;

use super::black_box;

verus! {

/// `m` is a prime number.
pub open spec fn is_prime(m: int) -> bool {
    m >= 2 && forall|d: int| 2 <= d < m ==> #[trigger] (m % d) != 0
}

/// The number of primes below `k`.
pub open spec fn primes_below(k: int) -> int
    decreases k,
{
    if k <= 2 {
        0
    } else {
        primes_below(k - 1) + if is_prime(k - 1) {
            1int
        } else {
            0
        }
    }
}

/// `x` is a proper multiple of some prime below `p`: what the sieve has
/// crossed out once every number below `p` has been handled.
pub open spec fn crossed(x: int, p: int) -> bool {
    exists|q: int| 2 <= q < p && is_prime(q) && #[trigger] (x % q) == 0 && x != q
}

/// Divisibility is transitive.
proof fn lemma_divides_trans(m: int, d: int, q: int)
    requires
        m >= 1,
        d >= 1,
        q >= 1,
        m % d == 0,
        d % q == 0,
    ensures
        m % q == 0,
{
    vstd::arithmetic::div_mod::lemma_fundamental_div_mod(m, d);
    vstd::arithmetic::div_mod::lemma_fundamental_div_mod(d, q);
    let a = m / d;
    let b = d / q;
    assert(m == d * a);
    assert(d == q * b);
    vstd::arithmetic::mul::lemma_mul_is_associative(q, b, a);
    assert(m == (b * a) * q) by (nonlinear_arith)
        requires
            m == d * a,
            d == q * b,
    ;
    vstd::arithmetic::div_mod::lemma_mod_multiples_basic(b * a, q);
}

/// The multiple of `p` after the multiple `m` is `m + p`.
proof fn lemma_next_multiple(m: int, x: int, p: int)
    requires
        p >= 1,
        m >= 0,
        m % p == 0,
        x % p == 0,
        m < x,
    ensures
        x >= m + p,
{
    vstd::arithmetic::div_mod::lemma_fundamental_div_mod(m, p);
    vstd::arithmetic::div_mod::lemma_fundamental_div_mod(x, p);
    let a = m / p;
    let b = x / p;
    assert(x >= m + p) by (nonlinear_arith)
        requires
            m == p * a,
            x == p * b,
            m < x,
            p >= 1,
    ;
}

/// Every number from 2 on has a prime divisor.
proof fn lemma_prime_divisor(m: int)
    requires
        m >= 2,
    ensures
        exists|q: int| 2 <= q <= m && is_prime(q) && #[trigger] (m % q) == 0,
    decreases m,
{
    if is_prime(m) {
        assert(m % m == 0) by {
            vstd::arithmetic::div_mod::lemma_mod_self_0(m);
        }
    } else {
        let d = choose|d: int| 2 <= d < m && #[trigger] (m % d) == 0;
        lemma_prime_divisor(d);
        let q = choose|q: int| 2 <= q <= d && is_prime(q) && #[trigger] (d % q) == 0;
        lemma_divides_trans(m, d, q);
    }
}

/// A number from 2 on that no smaller prime divides is prime.
proof fn lemma_uncrossed_is_prime(p: int)
    requires
        p >= 2,
        !crossed(p, p),
    ensures
        is_prime(p),
{
    lemma_prime_divisor(p);
    let q = choose|q: int| 2 <= q <= p && is_prime(q) && #[trigger] (p % q) == 0;
    if q < p {
        assert(crossed(p, p));
    }
}

/// The benchmark: the primes below two million, counted with the sieve of
/// Eratosthenes.
pub fn run() -> (r: i64)
    ensures
        r == primes_below(2_000_000),
{
    let n = black_box(2_000_000usize);
    let mut sieve = vec![true; n];
    let mut count = 0i64;
    let mut p = 2usize;
    while p < n
        invariant
            n == 2_000_000,
            sieve@.len() == n,
            2 <= p <= n,
            count == primes_below(p as int),
            0 <= count <= p,
            forall|x: int| 2 <= x < n ==> (!(#[trigger] sieve@[x]) <==> crossed(x, p as int)),
        decreases n - p,
    {
        if sieve[p] {
            proof {
                lemma_uncrossed_is_prime(p as int);
            }
            count = count + 1;
            let mut m = p * 2;
            proof {
                vstd::arithmetic::div_mod::lemma_mod_multiples_basic(2, p as int);
                assert((2 * p) as int == 2 * (p as int));
                assert((2 * (p as int)) % (p as int) == 0);
            }
            while m < n
                invariant
                    n == 2_000_000,
                    sieve@.len() == n,
                    2 <= p < n,
                    is_prime(p as int),
                    2 * p <= m <= n + p,
                    m % p == 0,
                    forall|x: int|
                        2 <= x < n ==> (!(#[trigger] sieve@[x]) <==> (crossed(x, p as int) || (x % (p as int)
                            == 0 && 2 * p <= x < m))),
                decreases n + p - m,
            {
                let ghost before = sieve@;
                sieve.set(m, false);
                proof {
                    vstd::arithmetic::div_mod::lemma_mod_adds(m as int, p as int, p as int);
                    vstd::arithmetic::div_mod::lemma_mod_self_0(p as int);
                    assert(forall|x: int| 2 <= x < n && x != m ==> #[trigger] sieve@[x] == before[x]);
                    assert forall|x: int| 2 <= x < n && #[trigger] (x % (p as int)) == 0 && m < x implies x >= m + p by {
                        lemma_next_multiple(m as int, x, p as int);
                    }
                }
                m = m + p;
            }
            proof {
                assert forall|x: int| 2 <= x < n implies (!(#[trigger] sieve@[x]) <==> crossed(x, p + 1)) by {
                    if x % (p as int) == 0 && x != p {
                        assert(x >= 2 * p) by {
                            vstd::arithmetic::div_mod::lemma_fundamental_div_mod(x, p as int);
                            assert(x == p * (x / (p as int)));
                            assert(x / (p as int) >= 2) by (nonlinear_arith)
                                requires
                                    x == p * (x / (p as int)),
                                    x != p,
                                    x >= 2,
                                    p >= 2,
                            ;
                            assert(x >= 2 * p) by (nonlinear_arith)
                                requires
                                    x == p * (x / (p as int)),
                                    x / (p as int) >= 2,
                                    p >= 2,
                            ;
                        }
                    }
                    if crossed(x, p + 1) && !crossed(x, p as int) {
                        let q = choose|q: int| 2 <= q < p + 1 && is_prime(q) && #[trigger] (x % q) == 0 && x != q;
                        assert(q == p);
                    }
                }
            }
        } else {
            proof {
                assert(crossed(p as int, p as int));
                assert(!is_prime(p as int)) by {
                    let q = choose|q: int| 2 <= q < p && is_prime(q) && #[trigger] ((p as int) % q) == 0 && p != q;
                    assert((p as int) % q == 0);
                }
                assert forall|x: int| 2 <= x < n implies (!(#[trigger] sieve@[x]) <==> crossed(x, p + 1)) by {
                    if crossed(x, p + 1) && !crossed(x, p as int) {
                        let q = choose|q: int| 2 <= q < p + 1 && is_prime(q) && #[trigger] (x % q) == 0 && x != q;
                        assert(q == p);
                    }
                }
            }
        }
        p = p + 1;
    }
    count
}

} // verus!
