pub mod fib;
pub mod generics;
pub mod interfaces;
pub mod iterators;
pub mod sieve;
pub mod unions;

use vstd::prelude::*;

verus! {

/// `std::hint::black_box`: the identity function, which the optimizer must
/// treat as opaque (so a benchmark input is not folded at compile time).
/// Its documentation states that it returns its argument.
#[verifier::external_body]
pub(crate) fn black_box<T>(x: T) -> (r: T)
    ensures
        r == x,
{
    std::hint::black_box(x)
}

} // verus!
