//! Exact rational arithmetic used for world and grid coordinates.
//!
//! A [`Rat`] is a signed numerator over a positive denominator, not
//! necessarily in lowest terms. Two rationals are equal as numbers when they
//! cross-multiply equally ([`q_eq`]). Every executable operation returns the
//! exact textbook result of the operation on the mathematical values; the
//! `*_ok` predicates in the `requires` clauses only keep the intermediate
//! products inside the `i128` range.

use vstd::prelude::*;

verus! {

/// The mathematical value of a rational number: an unbounded numerator `n`
/// over an unbounded denominator `d`.
pub ghost struct Q {
    pub n: int,
    pub d: int,
}

/// A rational with a positive denominator.
pub open spec fn q_valid(a: Q) -> bool {
    a.d > 0
}

/// Equality of rationals as numbers: `a.n / a.d == b.n / b.d`.
pub open spec fn q_eq(a: Q, b: Q) -> bool {
    a.n * b.d == b.n * a.d
}

/// `a <= b` as numbers, for positive denominators.
pub open spec fn q_le(a: Q, b: Q) -> bool {
    a.n * b.d <= b.n * a.d
}

/// The rational equal to the integer `i`.
pub open spec fn q_int(i: int) -> Q {
    Q { n: i, d: 1 }
}

pub open spec fn q_add(a: Q, b: Q) -> Q {
    Q { n: a.n * b.d + b.n * a.d, d: a.d * b.d }
}

pub open spec fn q_sub(a: Q, b: Q) -> Q {
    Q { n: a.n * b.d - b.n * a.d, d: a.d * b.d }
}

pub open spec fn q_mul(a: Q, b: Q) -> Q {
    Q { n: a.n * b.n, d: a.d * b.d }
}

pub open spec fn q_div(a: Q, b: Q) -> Q {
    Q { n: a.n * b.d, d: a.d * b.n }
}

/// Half of `a`; used for the half-tile extents of the isometric projection.
pub open spec fn q_half(a: Q) -> Q {
    Q { n: a.n, d: 2 * a.d }
}

/// `max(0, a)`: for a valid rational the sign is the sign of the numerator.
pub open spec fn q_max0(a: Q) -> Q {
    if a.n < 0 {
        q_int(0)
    } else {
        a
    }
}

/// The floor of `a` for a positive denominator (`int` division in specs is
/// Euclidean, which rounds toward negative infinity for positive divisors).
pub open spec fn q_floor(a: Q) -> int {
    a.n / a.d
}

/// Strictly positive as a number.
pub open spec fn q_pos(a: Q) -> bool {
    a.n > 0
}

pub open spec fn in_i128(x: int) -> bool {
    i128::MIN <= x <= i128::MAX
}

/// Both components of `a` are representable in `i128`.
pub open spec fn q_ok(a: Q) -> bool {
    in_i128(a.n) && in_i128(a.d)
}

/// The products computed by an exact addition stay inside `i128`.
pub open spec fn add_ok(a: Q, b: Q) -> bool {
    in_i128(a.n * b.d) && in_i128(b.n * a.d) && q_ok(q_add(a, b))
}

/// The products computed by an exact subtraction stay inside `i128`.
pub open spec fn sub_ok(a: Q, b: Q) -> bool {
    in_i128(a.n * b.d) && in_i128(b.n * a.d) && q_ok(q_sub(a, b))
}

pub open spec fn mul_ok(a: Q, b: Q) -> bool {
    q_ok(q_mul(a, b))
}

pub open spec fn div_ok(a: Q, b: Q) -> bool {
    q_ok(q_div(a, b))
}

pub open spec fn half_ok(a: Q) -> bool {
    in_i128(2 * a.d)
}

/// The cross products of an equality or ordering test stay inside `i128`.
pub open spec fn cmp_ok(a: Q, b: Q) -> bool {
    in_i128(a.n * b.d) && in_i128(b.n * a.d)
}

/// Numerator and denominator are bounded by `bound` in magnitude.
pub open spec fn q_small(a: Q, bound: int) -> bool {
    -bound <= a.n <= bound && 0 < a.d <= bound
}

/// `|a * b| <= aa * bb` when `|a| <= aa` and `|b| <= bb`.
pub proof fn lemma_abs_mul_le(a: int, b: int, aa: int, bb: int)
    by (nonlinear_arith)
    requires
        -aa <= a <= aa,
        -bb <= b <= bb,
        0 <= aa,
        0 <= bb,
    ensures
        -(aa * bb) <= a * b <= aa * bb,
{
}

/// The product of two positive integers is positive.
pub proof fn lemma_pos_mul(a: int, b: int)
    by (nonlinear_arith)
    requires
        a > 0,
        b > 0,
    ensures
        a * b > 0,
{
}

/// Dividing by a positive integer moves the value toward zero:
/// the quotient lies between 0 and the dividend.
pub proof fn lemma_floor_between(n: int, d: int)
    by (nonlinear_arith)
    requires
        d > 0,
    ensures
        n >= 0 ==> 0 <= n / d <= n,
        n < 0 ==> n <= n / d <= 0,
{
}

/// Rational equality is an equivalence on valid rationals; transitivity
/// needs the middle denominator to be nonzero.
pub proof fn lemma_q_eq_trans(a: Q, b: Q, c: Q)
    by (nonlinear_arith)
    requires
        q_valid(a),
        q_valid(b),
        q_valid(c),
        q_eq(a, b),
        q_eq(b, c),
    ensures
        q_eq(a, c),
{
}

/// A product of two products, with its four factors re-paired.
pub proof fn lemma_mul_reorder(x: int, y: int, z: int, w: int)
    by (nonlinear_arith)
    ensures
        (x * y) * (z * w) == (x * z) * (y * w),
        (x * y) * (z * w) == (x * w) * (y * z),
        (x * y) * (z * w) == (x * w) * (z * y),
{
}

/// Equal rationals have equal sums: addition respects [`q_eq`].
pub proof fn lemma_q_eq_add(a: Q, b: Q, a2: Q, b2: Q)
    requires
        q_eq(a, a2),
        q_eq(b, b2),
    ensures
        q_eq(q_add(a, b), q_add(a2, b2)),
{
    vstd::arithmetic::mul::lemma_mul_is_distributive_add_other_way(
        a2.d * b2.d,
        a.n * b.d,
        b.n * a.d,
    );
    vstd::arithmetic::mul::lemma_mul_is_distributive_add_other_way(
        a.d * b.d,
        a2.n * b2.d,
        b2.n * a2.d,
    );
    lemma_mul_reorder(a.n, b.d, a2.d, b2.d);
    lemma_mul_reorder(a2.n, b2.d, a.d, b.d);
    lemma_mul_reorder(b.n, a.d, a2.d, b2.d);
    lemma_mul_reorder(b2.n, a2.d, a.d, b.d);
    assert((a.n * a2.d) * (b.d * b2.d) == (a2.n * a.d) * (b.d * b2.d));
    assert((b.n * b2.d) * (a.d * a2.d) == (b2.n * b.d) * (a.d * a2.d));
}

/// Equal rationals have equal differences: subtraction respects [`q_eq`].
pub proof fn lemma_q_eq_sub(a: Q, b: Q, a2: Q, b2: Q)
    requires
        q_eq(a, a2),
        q_eq(b, b2),
    ensures
        q_eq(q_sub(a, b), q_sub(a2, b2)),
{
    vstd::arithmetic::mul::lemma_mul_is_distributive_sub_other_way(
        a2.d * b2.d,
        a.n * b.d,
        b.n * a.d,
    );
    vstd::arithmetic::mul::lemma_mul_is_distributive_sub_other_way(
        a.d * b.d,
        a2.n * b2.d,
        b2.n * a2.d,
    );
    lemma_mul_reorder(a.n, b.d, a2.d, b2.d);
    lemma_mul_reorder(a2.n, b2.d, a.d, b.d);
    lemma_mul_reorder(b.n, a.d, a2.d, b2.d);
    lemma_mul_reorder(b2.n, a2.d, a.d, b.d);
    assert((a.n * a2.d) * (b.d * b2.d) == (a2.n * a.d) * (b.d * b2.d));
    assert((b.n * b2.d) * (a.d * a2.d) == (b2.n * b.d) * (a.d * a2.d));
}

/// Equal dividends have equal quotients: division respects [`q_eq`] on the
/// left.
pub proof fn lemma_q_eq_div_left(a: Q, a2: Q, b: Q)
    by (nonlinear_arith)
    requires
        q_eq(a, a2),
    ensures
        q_eq(q_div(a, b), q_div(a2, b)),
{
}

/// Equal rationals have equal halves.
pub proof fn lemma_q_eq_half(a: Q, a2: Q)
    by (nonlinear_arith)
    requires
        q_eq(a, a2),
    ensures
        q_eq(q_half(a), q_half(a2)),
{
}

/// Multiplying by `b` and dividing by `b` again returns the value, for any
/// `b` that is not zero as a number.
pub proof fn lemma_q_div_mul_cancel(a: Q, b: Q)
    by (nonlinear_arith)
    ensures
        q_eq(q_div(q_mul(a, b), b), a),
{
}

/// Adding a rational whose numerator is zero does not change the value.
pub proof fn lemma_q_add_zero(a: Q, z: Q)
    by (nonlinear_arith)
    requires
        z.n == 0,
    ensures
        q_eq(q_add(a, z), a),
{
}

/// A rational with a positive denominator, representing the exact number
/// `num / den`. Field equality (`==`) is representation equality; equality
/// as numbers is [`q_eq`] over [`Rat::q`].
#[derive(Clone, Copy, Debug, PartialEq, Eq, Structural)]
pub struct Rat {
    pub num: i128,
    pub den: i128,
}

impl Rat {
    /// The mathematical value of this rational.
    pub open spec fn q(self) -> Q {
        Q { n: self.num as int, d: self.den as int }
    }

    pub open spec fn valid(self) -> bool {
        self.den > 0
    }

    pub fn new(num: i128, den: i128) -> (r: Rat)
        requires
            den > 0,
        ensures
            r.q() == (Q { n: num as int, d: den as int }),
            r.valid(),
    {
        Rat { num, den }
    }

    /// The rational equal to the integer `i`.
    pub fn from_int(i: i128) -> (r: Rat)
        ensures
            r.q() == q_int(i as int),
            r.valid(),
    {
        Rat { num: i, den: 1 }
    }

    pub fn add(self, other: Rat) -> (r: Rat)
        requires
            self.valid(),
            other.valid(),
            add_ok(self.q(), other.q()),
        ensures
            r.valid(),
            r.q() == q_add(self.q(), other.q()),
    {
        proof {
            lemma_pos_mul(self.den as int, other.den as int);
        }
        Rat { num: self.num * other.den + other.num * self.den, den: self.den * other.den }
    }

    pub fn sub(self, other: Rat) -> (r: Rat)
        requires
            self.valid(),
            other.valid(),
            sub_ok(self.q(), other.q()),
        ensures
            r.valid(),
            r.q() == q_sub(self.q(), other.q()),
    {
        proof {
            lemma_pos_mul(self.den as int, other.den as int);
        }
        Rat { num: self.num * other.den - other.num * self.den, den: self.den * other.den }
    }

    pub fn mul(self, other: Rat) -> (r: Rat)
        requires
            self.valid(),
            other.valid(),
            mul_ok(self.q(), other.q()),
        ensures
            r.valid(),
            r.q() == q_mul(self.q(), other.q()),
    {
        proof {
            lemma_pos_mul(self.den as int, other.den as int);
        }
        Rat { num: self.num * other.num, den: self.den * other.den }
    }

    /// Division by a rational that is strictly positive as a number.
    pub fn div(self, other: Rat) -> (r: Rat)
        requires
            self.valid(),
            other.valid(),
            q_pos(other.q()),
            div_ok(self.q(), other.q()),
        ensures
            r.valid(),
            r.q() == q_div(self.q(), other.q()),
    {
        proof {
            lemma_pos_mul(self.den as int, other.num as int);
        }
        Rat { num: self.num * other.den, den: self.den * other.num }
    }

    pub fn half(self) -> (r: Rat)
        requires
            self.valid(),
            half_ok(self.q()),
        ensures
            r.valid(),
            r.q() == q_half(self.q()),
    {
        Rat { num: self.num, den: 2 * self.den }
    }

    /// `max(0, self)`.
    pub fn max0(self) -> (r: Rat)
        requires
            self.valid(),
        ensures
            r.valid(),
            r.q() == q_max0(self.q()),
    {
        if self.num < 0 {
            Rat { num: 0, den: 1 }
        } else {
            self
        }
    }

    /// The floor of the value, as an integer.
    pub fn floor(self) -> (r: i128)
        requires
            self.valid(),
        ensures
            r as int == q_floor(self.q()),
    {
        proof {
            lemma_floor_between(self.num as int, self.den as int);
        }
        self.num.checked_div_euclid(self.den).unwrap()
    }

    /// Equality as numbers: `self` and `other` represent the same rational.
    pub fn eq_rat(self, other: Rat) -> (r: bool)
        requires
            self.valid(),
            other.valid(),
            cmp_ok(self.q(), other.q()),
        ensures
            r == q_eq(self.q(), other.q()),
    {
        self.num * other.den == other.num * self.den
    }
}

} // verus!
