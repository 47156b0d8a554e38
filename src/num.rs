//! Exact rational numbers and the 2D/3D vectors built from them.
use vstd::prelude::*;

verus! {

/// Largest magnitude of a numerator or denominator that the arithmetic
/// operations accept as an operand.
pub const OPERAND_LIMIT: i128 = 0x4000_0000_0000_0000;

/// Largest magnitude of a parameter of a part (a length, a thickness).
pub const PARAM_LIMIT: i128 = 0x4000_0000;

/// A rational pair `(numerator, denominator)`; the value it stands for is
/// `numerator / denominator` when the denominator is positive.
pub open spec fn q_int(k: int) -> (int, int) {
    (k, 1)
}

pub open spec fn q_add(a: (int, int), b: (int, int)) -> (int, int) {
    (a.0 * b.1 + b.0 * a.1, a.1 * b.1)
}

pub open spec fn q_sub(a: (int, int), b: (int, int)) -> (int, int) {
    (a.0 * b.1 - b.0 * a.1, a.1 * b.1)
}

pub open spec fn q_mul(a: (int, int), b: (int, int)) -> (int, int) {
    (a.0 * b.0, a.1 * b.1)
}

pub open spec fn q_neg(a: (int, int)) -> (int, int) {
    (-a.0, a.1)
}

/// `a * k` for an integer `k`.
pub open spec fn q_scale(a: (int, int), k: int) -> (int, int) {
    (a.0 * k, a.1)
}

/// `a / k` for a positive integer `k`.
pub open spec fn q_div(a: (int, int), k: int) -> (int, int) {
    (a.0, a.1 * k)
}

pub open spec fn q_half(a: (int, int)) -> (int, int) {
    q_div(a, 2)
}

/// The two pairs stand for the same number.
pub open spec fn q_eq(a: (int, int), b: (int, int)) -> bool {
    a.0 * b.1 == b.0 * a.1
}

/// `a < b`, for pairs with positive denominators.
pub open spec fn q_lt(a: (int, int), b: (int, int)) -> bool {
    a.0 * b.1 < b.0 * a.1
}

/// `a <= b`, for pairs with positive denominators.
pub open spec fn q_le(a: (int, int), b: (int, int)) -> bool {
    a.0 * b.1 <= b.0 * a.1
}

pub open spec fn q_sign(a: (int, int)) -> int {
    if a.0 > 0 { 1 } else if a.0 < 0 { -1 } else { 0 }
}

pub open spec fn in_i128(x: int) -> bool {
    i128::MIN <= x <= i128::MAX
}

/// An exact rational number `num / den` with `den > 0`.
#[derive(Clone, Copy, Debug, PartialEq)]
pub struct Num {
    pub num: i128,
    pub den: i128,
}

impl View for Num {
    type V = (int, int);

    open spec fn view(&self) -> (int, int) {
        (self.num as int, self.den as int)
    }
}

impl Num {
    pub open spec fn wf(self) -> bool {
        self.den > 0
    }

    /// Small enough to be an operand of `add`, `sub` and `mul`.
    pub open spec fn fits(self) -> bool {
        -OPERAND_LIMIT <= self.num <= OPERAND_LIMIT && 0 < self.den <= OPERAND_LIMIT
    }

    /// Small enough to be a parameter of a part.
    pub open spec fn small(self) -> bool {
        -PARAM_LIMIT <= self.num <= PARAM_LIMIT && 0 < self.den <= PARAM_LIMIT
    }

    pub open spec fn is_pos(self) -> bool {
        self.num > 0
    }

    pub fn whole(k: i64) -> (r: Num)
        ensures
            r@ == q_int(k as int),
    {
        Num { num: k as i128, den: 1 }
    }

    /// The rational `num / den`.
    pub fn ratio(num: i64, den: i64) -> (r: Num)
        requires
            den > 0,
        ensures
            r@ == (num as int, den as int),
    {
        Num { num: num as i128, den: den as i128 }
    }

    pub fn add(self, o: Num) -> (r: Num)
        requires
            self.fits(),
            o.fits(),
        ensures
            r@ == q_add(self@, o@),
            r.wf(),
            self.small() && o.small() ==> r.fits(),
    {
        proof {
            lemma_small_products(self, o);
            lemma_product_fits(self.num as int, o.den as int);
            lemma_product_fits(o.num as int, self.den as int);
            lemma_product_fits(self.den as int, o.den as int);
            lemma_pos_product(self.den as int, o.den as int);
        }
        Num { num: self.num * o.den + o.num * self.den, den: self.den * o.den }
    }

    pub fn sub(self, o: Num) -> (r: Num)
        requires
            self.fits(),
            o.fits(),
        ensures
            r@ == q_sub(self@, o@),
            r.wf(),
            self.small() && o.small() ==> r.fits(),
    {
        proof {
            lemma_small_products(self, o);
            lemma_product_fits(self.num as int, o.den as int);
            lemma_product_fits(o.num as int, self.den as int);
            lemma_product_fits(self.den as int, o.den as int);
            lemma_pos_product(self.den as int, o.den as int);
        }
        Num { num: self.num * o.den - o.num * self.den, den: self.den * o.den }
    }

    pub fn mul(self, o: Num) -> (r: Num)
        requires
            self.fits(),
            o.fits(),
        ensures
            r@ == q_mul(self@, o@),
            r.wf(),
            self.small() && o.small() ==> r.fits(),
    {
        proof {
            lemma_small_products(self, o);
            lemma_product_fits(self.num as int, o.num as int);
            lemma_product_fits(self.den as int, o.den as int);
            lemma_pos_product(self.den as int, o.den as int);
        }
        Num { num: self.num * o.num, den: self.den * o.den }
    }

    pub fn neg(self) -> (r: Num)
        requires
            self.num > i128::MIN,
        ensures
            r@ == q_neg(self@),
    {
        Num { num: -self.num, den: self.den }
    }

    /// `self * k`.
    pub fn scale(self, k: u64) -> (r: Num)
        requires
            in_i128(self.num * k),
        ensures
            r@ == q_scale(self@, k as int),
    {
        Num { num: self.num * k as i128, den: self.den }
    }

    /// `self / k`.
    pub fn div(self, k: u64) -> (r: Num)
        requires
            self.wf(),
            k > 0,
            in_i128(self.den * k),
        ensures
            r@ == q_div(self@, k as int),
            r.wf(),
    {
        proof {
            lemma_pos_product(self.den as int, k as int);
        }
        Num { num: self.num, den: self.den * k as i128 }
    }

    pub fn half(self) -> (r: Num)
        requires
            self.wf(),
            self.den <= i128::MAX / 2,
        ensures
            r@ == q_half(self@),
            r.wf(),
    {
        Num { num: self.num, den: self.den * 2 }
    }

    /// `self > 0`.
    pub fn positive(self) -> (r: bool)
        ensures
            r == self.is_pos(),
    {
        self.num > 0
    }

    /// `self <= o`.
    pub fn le(self, o: Num) -> (r: bool)
        requires
            self.fits(),
            o.fits(),
        ensures
            r == q_le(self@, o@),
    {
        proof {
            lemma_product_fits(self.num as int, o.den as int);
            lemma_product_fits(o.num as int, self.den as int);
        }
        self.num * o.den <= o.num * self.den
    }
}

/// Sums and products of two parameters are operands.
pub proof fn lemma_small_products(a: Num, b: Num)
    ensures
        a.small() && b.small() ==> {
            &&& -0x1000_0000_0000_0000 <= a.num * b.den <= 0x1000_0000_0000_0000
            &&& -0x1000_0000_0000_0000 <= b.num * a.den <= 0x1000_0000_0000_0000
            &&& -0x1000_0000_0000_0000 <= a.num * b.num <= 0x1000_0000_0000_0000
            &&& 0 < a.den * b.den <= 0x1000_0000_0000_0000
        },
{
    if a.small() && b.small() {
        lemma_mul_bound(a.num as int, b.den as int, PARAM_LIMIT as int, PARAM_LIMIT as int);
        lemma_mul_bound(b.num as int, a.den as int, PARAM_LIMIT as int, PARAM_LIMIT as int);
        lemma_mul_bound(a.num as int, b.num as int, PARAM_LIMIT as int, PARAM_LIMIT as int);
        lemma_mul_bound(a.den as int, b.den as int, PARAM_LIMIT as int, PARAM_LIMIT as int);
        lemma_pos_product(a.den as int, b.den as int);
    }
}

/// `|a * b| <= A * B` when `|a| <= A` and `|b| <= B`.
pub proof fn lemma_mul_bound(a: int, b: int, bound_a: int, bound_b: int)
    requires
        -bound_a <= a <= bound_a,
        -bound_b <= b <= bound_b,
    ensures
        -(bound_a * bound_b) <= a * b <= bound_a * bound_b,
{
    assert(-(bound_a * bound_b) <= a * b <= bound_a * bound_b) by (nonlinear_arith)
        requires
            -bound_a <= a <= bound_a,
            -bound_b <= b <= bound_b,
    ;
}

/// A product of two operands stays well inside `i128`.
pub proof fn lemma_product_fits(a: int, b: int)
    requires
        -OPERAND_LIMIT <= a <= OPERAND_LIMIT,
        -OPERAND_LIMIT <= b <= OPERAND_LIMIT,
    ensures
        -0x1000_0000_0000_0000_0000_0000_0000_0000 <= a * b <= 0x1000_0000_0000_0000_0000_0000_0000_0000,
{
    assert(-0x1000_0000_0000_0000_0000_0000_0000_0000 <= a * b <= 0x1000_0000_0000_0000_0000_0000_0000_0000) by (nonlinear_arith)
        requires
            -0x4000_0000_0000_0000 <= a <= 0x4000_0000_0000_0000,
            -0x4000_0000_0000_0000 <= b <= 0x4000_0000_0000_0000,
    ;
}

pub proof fn lemma_pos_product(a: int, b: int)
    requires
        a > 0,
        b > 0,
    ensures
        a * b > 0,
{
    assert(a * b > 0) by (nonlinear_arith)
        requires
            a > 0,
            b > 0,
    ;
}

/// A point or direction in the plane.
#[derive(Clone, Copy, Debug, PartialEq)]
pub struct Vec2 {
    pub x: Num,
    pub y: Num,
}

/// A point or direction in space.
#[derive(Clone, Copy, Debug, PartialEq)]
pub struct Vec3 {
    pub x: Num,
    pub y: Num,
    pub z: Num,
}

pub fn vec2(x: Num, y: Num) -> (r: Vec2)
    ensures
        r.x == x,
        r.y == y,
{
    Vec2 { x, y }
}

pub fn vec3(x: Num, y: Num, z: Num) -> (r: Vec3)
    ensures
        r.x == x,
        r.y == y,
        r.z == z,
{
    Vec3 { x, y, z }
}

} // verus!
