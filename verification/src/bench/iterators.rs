use vstd::prelude::*;

use super::black_box;
use super::generics::modulus;

verus! {

/// The checksum over `0..i`: each multiple `k` of 3 adds `k * k` (both
/// reduced modulo `1_000_000_007`).
pub open spec fn spec_iterators_acc(i: int) -> int
    decreases i,
{
    if i <= 0 {
        0
    } else if (i - 1) % 3 == 0 {
        (spec_iterators_acc(i - 1) + ((i - 1) * (i - 1)) % modulus()) % modulus()
    } else {
        spec_iterators_acc(i - 1)
    }
}

proof fn lemma_iterators_acc_range(i: int)
    ensures
        0 <= spec_iterators_acc(i) < modulus(),
    decreases i,
{
    if i > 0 {
        lemma_iterators_acc_range(i - 1);
    }
}

/// The benchmark: the multiples of 3 below ten million, squared and summed
/// (the range filtered, mapped and folded).
pub fn run() -> (r: i64)
    ensures
        r == spec_iterators_acc(10_000_000),
{
    let n: i64 = black_box(10_000_000);
    let p: i64 = 1_000_000_007;
    let mut acc: i64 = 0;
    let mut i: i64 = 0;
    while i < n
        invariant
            n == 10_000_000,
            p == modulus(),
            0 <= i <= n,
            acc == spec_iterators_acc(i as int),
        decreases n - i,
    {
        proof {
            lemma_iterators_acc_range(i as int);
            assert(0 <= i * i <= 10_000_000 * 10_000_000) by (nonlinear_arith)
                requires
                    0 <= i < 10_000_000,
            ;
        }
        if i % 3 == 0 {
            acc = (acc + (i * i) % p) % p;
        }
        i = i + 1;
    }
    acc
}

} // verus!
