use vstd::prelude::*;

use super::black_box;

verus! {

/// The Fibonacci numbers, with `fib(n) == n` below 2.
pub open spec fn spec_fib(n: int) -> int
    decreases n,
{
    if n < 2 {
        n
    } else {
        spec_fib(n - 1) + spec_fib(n - 2)
    }
}

/// Fibonacci numbers of naturals are naturals, and at most `2^n`.
proof fn lemma_fib_bounds(n: nat)
    ensures
        0 <= spec_fib(n as int) <= vstd::arithmetic::power2::pow2(n),
    decreases n,
{
    vstd::arithmetic::power2::lemma_pow2_pos(n);
    if n >= 2 {
        lemma_fib_bounds((n - 1) as nat);
        lemma_fib_bounds((n - 2) as nat);
        vstd::arithmetic::power2::lemma_pow2_unfold(n);
        vstd::arithmetic::power2::lemma_pow2_unfold((n - 1) as nat);
        vstd::arithmetic::power2::lemma_pow2_pos((n - 2) as nat);
    }
}

/// The `n`th Fibonacci number, by the doubly recursive definition.
pub fn fib(n: i64) -> (r: i64)
    requires
        spec_fib(n as int) <= i64::MAX,
    ensures
        r == spec_fib(n as int),
    decreases n,
{
    if n < 2 {
        n
    } else {
        proof {
            lemma_fib_bounds((n - 1) as nat);
            lemma_fib_bounds((n - 2) as nat);
        }
        fib(n - 1) + fib(n - 2)
    }
}

/// The benchmark: the 35th Fibonacci number.
pub fn run() -> (r: i64)
    ensures
        r == spec_fib(35),
{
    let n = black_box(35i64);
    proof {
        lemma_fib_bounds(35);
        vstd::arithmetic::power2::lemma2_to64();
        vstd::arithmetic::power2::lemma2_to64_rest();
    }
    fib(n)
}

} // verus!
