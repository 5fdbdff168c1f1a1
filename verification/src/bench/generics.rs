use vstd::prelude::*;

use super::black_box;

verus! {

/// A value in a generic box.
pub struct Wrapper<T> {
    pub value: T,
}

impl<T: Copy> Wrapper<T> {
    pub fn get(&self) -> (r: T)
        ensures
            r == self.value,
    {
        self.value
    }
}

/// The modulus of the benchmarks' checksums.
pub open spec fn modulus() -> int {
    1_000_000_007
}

/// The checksum after `i` rounds: each round `k` adds `2 * k`, modulo
/// `1_000_000_007`.
pub open spec fn spec_generics_acc(i: int) -> int
    decreases i,
{
    if i <= 0 {
        0
    } else {
        (spec_generics_acc(i - 1) + (i - 1) * 2) % modulus()
    }
}

proof fn lemma_generics_acc_range(i: int)
    ensures
        0 <= spec_generics_acc(i) < modulus(),
    decreases i,
{
    if i > 0 {
        lemma_generics_acc_range(i - 1);
    }
}

/// The benchmark: ten million rounds through a generic wrapper.
pub fn run() -> (r: i64)
    ensures
        r == spec_generics_acc(10_000_000),
{
    let n: i64 = black_box(10_000_000);
    let p: i64 = 1_000_000_007;
    let mut acc: i64 = 0;
    let mut i: i64 = 0;
    while i < n
        invariant
            n == 10_000_000,
            p == modulus(),
            0 <= i <= n,
            acc == spec_generics_acc(i as int),
        decreases n - i,
    {
        proof {
            lemma_generics_acc_range(i as int);
        }
        let w = Wrapper { value: i };
        acc = (acc + w.get() * 2) % p;
        i = i + 1;
    }
    acc
}

} // verus!
