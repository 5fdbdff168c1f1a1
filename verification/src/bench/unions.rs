use vstd::prelude::*;

use super::black_box;
use super::generics::modulus;

verus! {

/// An arithmetic expression tree.
pub enum Expr {
    Num(i64),
    Add(Box<Expr>, Box<Expr>),
    Mul(Box<Expr>, Box<Expr>),
}

/// The value of an expression, over the integers.
pub open spec fn spec_eval(e: Expr) -> int
    decreases e,
{
    match e {
        Expr::Num(v) => v as int,
        Expr::Add(l, r) => spec_eval(*l) + spec_eval(*r),
        Expr::Mul(l, r) => spec_eval(*l) * spec_eval(*r),
    }
}

/// Every intermediate value of the evaluation fits in `i64`.
pub open spec fn fits(e: Expr) -> bool
    decreases e,
{
    &&& i64::MIN <= spec_eval(e) <= i64::MAX
    &&& match e {
        Expr::Num(_) => true,
        Expr::Add(l, r) => fits(*l) && fits(*r),
        Expr::Mul(l, r) => fits(*l) && fits(*r),
    }
}

/// Evaluates an expression.
pub fn evaluate(e: &Expr) -> (r: i64)
    requires
        fits(*e),
    ensures
        r == spec_eval(*e),
    decreases e,
{
    match e {
        Expr::Num(v) => *v,
        Expr::Add(l, r) => evaluate(l) + evaluate(r),
        Expr::Mul(l, r) => evaluate(l) * evaluate(r),
    }
}

/// The checksum after `i` rounds: round `k` adds `k % 1000 + (k % 7) * 3`.
pub open spec fn spec_unions_acc(i: int) -> int
    decreases i,
{
    if i <= 0 {
        0
    } else {
        (spec_unions_acc(i - 1) + ((i - 1) % 1000 + ((i - 1) % 7) * 3)) % modulus()
    }
}

proof fn lemma_unions_acc_range(i: int)
    ensures
        0 <= spec_unions_acc(i) < modulus(),
    decreases i,
{
    if i > 0 {
        lemma_unions_acc_range(i - 1);
    }
}

/// The benchmark: two million small expression trees built and evaluated.
pub fn run() -> (r: i64)
    ensures
        r == spec_unions_acc(2_000_000),
{
    let count: i64 = black_box(2_000_000);
    let p: i64 = 1_000_000_007;
    let mut acc: i64 = 0;
    let mut i: i64 = 0;
    while i < count
        invariant
            count == 2_000_000,
            p == modulus(),
            0 <= i <= count,
            acc == spec_unions_acc(i as int),
        decreases count - i,
    {
        proof {
            lemma_unions_acc_range(i as int);
        }
        let expr = Expr::Add(
            Box::new(Expr::Num(i % 1000)),
            Box::new(Expr::Mul(Box::new(Expr::Num(i % 7)), Box::new(Expr::Num(3)))),
        );
        proof {
            let a = i % 1000;
            let b = i % 7;
            assert(0 <= b * 3 <= 18) by (nonlinear_arith)
                requires
                    0 <= b < 7,
            ;
            reveal_with_fuel(spec_eval, 3);
            reveal_with_fuel(fits, 3);
            assert(spec_eval(expr) == a + b * 3);
            assert(fits(expr));
        }
        let v = evaluate(&expr);
        acc = (acc + v) % p;
        i = i + 1;
    }
    acc
}

} // verus!
