use otter_fusion::bench::interfaces::{AnyShape, Circle, Shape, Square};
use otter_fusion::bench::unions::{evaluate, Expr};
use otter_fusion::bench::{fib, generics, interfaces, iterators, sieve, unions};

#[test]
fn fib_values() {
    assert_eq!(fib::fib(0), 0);
    assert_eq!(fib::fib(1), 1);
    assert_eq!(fib::fib(10), 55);
    assert_eq!(fib::fib(-3), -3);
    assert_eq!(fib::run(), 9227465);
}

#[test]
fn generics_checksum() {
    assert_eq!(generics::Wrapper { value: 7i64 }.get(), 7);
    assert_eq!(generics::run(), 989300007);
}

#[test]
fn iterators_checksum() {
    assert_eq!(iterators::run(), 998222118);
}

#[test]
fn unions_checksum() {
    let e = Expr::Add(Box::new(Expr::Num(4)), Box::new(Expr::Mul(Box::new(Expr::Num(5)), Box::new(Expr::Num(3)))));
    assert_eq!(evaluate(&e), 19);
    assert_eq!(unions::run(), 16999978);
}

#[test]
fn interfaces_checksum() {
    assert_eq!(Circle { r: 10 }.area(), 314);
    assert_eq!(Square { s: 7 }.area(), 49);
    assert_eq!(AnyShape::Circle(Circle { r: 1 }).area(), 3);
    assert_eq!(interfaces::run(), 521999517);
}

#[test]
fn sieve_counts_primes() {
    assert_eq!(sieve::run(), 148933);
}
