use vstd::prelude::*;

use super::black_box;
use super::generics::modulus;

verus! {

/// A shape with an area.
pub trait Shape {
    /// The area, over the integers.
    spec fn spec_area(&self) -> int;

    /// The area can be computed within `i64`.
    spec fn area_fits(&self) -> bool;

    fn area(&self) -> (r: i64)
        requires
            self.area_fits(),
        ensures
            r == self.spec_area(),
    ;
}

pub struct Circle {
    pub r: i64,
}

pub struct Square {
    pub s: i64,
}

impl Shape for Circle {
    /// `r * r * 355 / 113`, with 355/113 standing for pi.
    open spec fn spec_area(&self) -> int {
        (self.r * self.r * 355) / 113
    }

    open spec fn area_fits(&self) -> bool {
        self.r * self.r * 355 <= i64::MAX
    }

    fn area(&self) -> (r: i64) {
        proof {
            let x = self.r as int;
            assert(0 <= x * x <= x * x * 355) by (nonlinear_arith);
        }
        self.r * self.r * 355 / 113
    }
}

impl Shape for Square {
    open spec fn spec_area(&self) -> int {
        self.s * self.s
    }

    open spec fn area_fits(&self) -> bool {
        self.s * self.s <= i64::MAX
    }

    fn area(&self) -> (r: i64) {
        proof {
            let x = self.s as int;
            assert(0 <= x * x) by (nonlinear_arith);
        }
        self.s * self.s
    }
}

/// One of the shapes, dispatched by its kind.
pub enum AnyShape {
    Circle(Circle),
    Square(Square),
}

impl Shape for AnyShape {
    open spec fn spec_area(&self) -> int {
        match self {
            AnyShape::Circle(c) => c.spec_area(),
            AnyShape::Square(q) => q.spec_area(),
        }
    }

    open spec fn area_fits(&self) -> bool {
        match self {
            AnyShape::Circle(c) => c.area_fits(),
            AnyShape::Square(q) => q.area_fits(),
        }
    }

    fn area(&self) -> (r: i64) {
        match self {
            AnyShape::Circle(c) => c.area(),
            AnyShape::Square(q) => q.area(),
        }
    }
}

/// The area of the `i`th shape of the benchmark: a circle of radius
/// `i % 100 + 1` for even `i`, else a square of that side.
pub open spec fn shape_area(i: int) -> int {
    let v = i % 100 + 1;
    if i % 2 == 0 {
        (v * v * 355) / 113
    } else {
        v * v
    }
}

/// The checksum after `t` area calls over `k` shapes taken in turn.
pub open spec fn spec_interfaces_acc(k: int, t: int) -> int
    decreases t,
{
    if t <= 0 {
        0
    } else {
        (spec_interfaces_acc(k, t - 1) + shape_area((t - 1) % k)) % modulus()
    }
}

proof fn lemma_acc_range(k: int, t: int)
    ensures
        0 <= spec_interfaces_acc(k, t) < modulus(),
    decreases t,
{
    if t > 0 {
        lemma_acc_range(k, t - 1);
    }
}

proof fn lemma_shape_area_range(i: int)
    requires
        0 <= i,
    ensures
        0 <= shape_area(i) <= 101 * 101 * 355,
{
    let v = i % 100 + 1;
    assert(1 <= v <= 100);
    assert(v * v <= 100 * 100) by (nonlinear_arith)
        requires
            1 <= v <= 100,
    ;
    assert(0 <= v * v * 355 <= 100 * 100 * 355) by (nonlinear_arith)
        requires
            1 <= v <= 100,
    ;
}

/// The benchmark: 5000 rounds of area calls through the `Shape` interface
/// over 2000 shapes, alternately circles and squares.
pub fn run() -> (r: i64)
    ensures
        r == spec_interfaces_acc(2000, 10_000_000),
{
    let k: i64 = black_box(2000);
    let rounds: i64 = black_box(5000);
    let p: i64 = 1_000_000_007;
    let mut shapes: Vec<AnyShape> = Vec::new();
    let mut i: i64 = 0;
    while i < k
        invariant
            k == 2000,
            0 <= i <= k,
            shapes@.len() == i,
            forall|j: int| 0 <= j < i ==> (#[trigger] shapes@[j]).area_fits() && shapes@[j].spec_area()
                == shape_area(j),
        decreases k - i,
    {
        let v = i % 100 + 1;
        proof {
            assert(0 <= v * v * 355 <= 101 * 101 * 355) by (nonlinear_arith)
                requires
                    1 <= v <= 100,
            ;
        }
        let b = if i % 2 == 0 {
            AnyShape::Circle(Circle { r: v })
        } else {
            AnyShape::Square(Square { s: v })
        };
        shapes.push(b);
        i = i + 1;
    }
    let mut acc: i64 = 0;
    let mut round: i64 = 0;
    while round < rounds
        invariant
            k == 2000,
            rounds == 5000,
            p == modulus(),
            0 <= round <= rounds,
            shapes@.len() == k,
            forall|j: int| 0 <= j < k ==> (#[trigger] shapes@[j]).area_fits() && shapes@[j].spec_area()
                == shape_area(j),
            acc == spec_interfaces_acc(2000, round * 2000),
        decreases rounds - round,
    {
        let mut j: usize = 0;
        while j < shapes.len()
            invariant
                k == 2000,
                rounds == 5000,
                p == modulus(),
                0 <= round < rounds,
                shapes@.len() == k,
                j <= shapes@.len(),
                forall|x: int| 0 <= x < k ==> (#[trigger] shapes@[x]).area_fits() && shapes@[x].spec_area()
                    == shape_area(x),
                acc == spec_interfaces_acc(2000, round * 2000 + j),
            decreases shapes@.len() - j,
        {
            proof {
                lemma_acc_range(2000, round * 2000 + j);
                lemma_shape_area_range(j as int);
                assert((round * 2000 + j) % 2000 == j as int) by (nonlinear_arith)
                    requires
                        0 <= j < 2000,
                        0 <= round,
                ;
            }
            let a = shapes[j].area();
            acc = (acc + a) % p;
            j = j + 1;
        }
        round = round + 1;
    }
    acc
}

} // verus!
