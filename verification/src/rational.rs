//! Exact rational scalars.
//!
//! Forward values and gradients are rationals held as a numerator and a
//! positive denominator, both machine integers.  The ghost model of a
//! scalar is a pair of unbounded integers, so the arithmetic contracts
//! are exact; an executable operation whose result does not fit the
//! machine representation returns `None`.

use vstd::prelude::*;

verus! {

/// Ghost model of a scalar: an unbounded fraction `num / den`.
pub struct Rat {
    pub num: int,
    pub den: int,
}

/// A well-formed ghost rational has a positive denominator.
pub open spec fn rat_wf(r: Rat) -> bool {
    r.den > 0
}

/// Mathematical equality of two fractions, by cross-multiplication.
pub open spec fn rat_eq(a: Rat, b: Rat) -> bool {
    a.num * b.den == b.num * a.den
}

/// The integer `n` as a rational.
pub open spec fn rat_int(n: int) -> Rat {
    Rat { num: n, den: 1 }
}

pub open spec fn rat_add(a: Rat, b: Rat) -> Rat {
    Rat { num: a.num * b.den + b.num * a.den, den: a.den * b.den }
}

pub open spec fn rat_sub(a: Rat, b: Rat) -> Rat {
    Rat { num: a.num * b.den - b.num * a.den, den: a.den * b.den }
}

pub open spec fn rat_mul(a: Rat, b: Rat) -> Rat {
    Rat { num: a.num * b.num, den: a.den * b.den }
}

pub open spec fn rat_neg(a: Rat) -> Rat {
    Rat { num: -a.num, den: a.den }
}

/// Division keeps the denominator positive by moving the divisor's sign
/// into the numerator.  Meaningful only when `b.num != 0`.
pub open spec fn rat_div(a: Rat, b: Rat) -> Rat {
    if b.num >= 0 {
        Rat { num: a.num * b.den, den: a.den * b.num }
    } else {
        Rat { num: -(a.num * b.den), den: -(a.den * b.num) }
    }
}

/// The fractions representable by a `Scalar`: the numerator symmetric
/// around zero so that negation is always exact, the denominator positive.
pub open spec fn rat_fits(r: Rat) -> bool {
    &&& -0x7fff_ffff_ffff_ffff <= r.num <= 0x7fff_ffff_ffff_ffff
    &&& 0 < r.den <= 0x7fff_ffff_ffff_ffff
}

/// Adding a fraction whose numerator is zero does not change the value.
pub proof fn lemma_rat_add_zero_left(z: Rat, r: Rat)
    requires
        z.num == 0,
        z.den > 0,
        r.den > 0,
    ensures
        rat_eq(rat_add(z, r), r),
        rat_wf(rat_add(z, r)),
{
    assert((z.num * r.den + r.num * z.den) * r.den == r.num * (z.den * r.den))
        by (nonlinear_arith)
        requires
            z.num == 0,
    ;
    assert(z.den * r.den > 0) by (nonlinear_arith)
        requires
            z.den > 0,
            r.den > 0,
    ;
}

/// Adding the integer zero is the identity, exactly, pair for pair.
pub proof fn lemma_rat_add_int_zero(r: Rat)
    ensures
        rat_add(rat_int(0), r) == r,
        rat_add(r, rat_int(0)) == r,
{
    assert(0 * r.den + r.num * 1 == r.num) by (nonlinear_arith);
    assert(1 * r.den == r.den) by (nonlinear_arith);
    assert(r.num * 1 + 0 * r.den == r.num) by (nonlinear_arith);
    assert(r.den * 1 == r.den) by (nonlinear_arith);
}

/// Adding a fraction to itself doubles it.
pub proof fn lemma_rat_double(x: Rat)
    requires
        x.den > 0,
    ensures
        rat_eq(rat_add(x, x), rat_mul(rat_int(2), x)),
{
    assert((x.num * x.den + x.num * x.den) * x.den == (2 * x.num) * (x.den * x.den))
        by (nonlinear_arith);
}

/// Mathematical equality is transitive whenever the middle term's
/// denominator is nonzero.
pub proof fn lemma_rat_eq_trans(a: Rat, b: Rat, c: Rat)
    requires
        rat_eq(a, b),
        rat_eq(b, c),
        b.den != 0,
    ensures
        rat_eq(a, c),
{
    assert(a.num * c.den == c.num * a.den) by (nonlinear_arith)
        requires
            a.num * b.den == b.num * a.den,
            b.num * c.den == c.num * b.den,
            b.den != 0,
    ;
}

/// Replacing either summand by a mathematically equal fraction keeps
/// the sum mathematically equal.
#[verifier::rlimit(100)]
pub proof fn lemma_rat_add_congruence(x: Rat, x2: Rat, y: Rat)
    requires
        rat_eq(x, x2),
    ensures
        rat_eq(rat_add(x, y), rat_add(x2, y)),
        rat_eq(rat_add(y, x), rat_add(y, x2)),
{
    assert((x.num * y.den + y.num * x.den) * (x2.den * y.den) == (x2.num * y.den + y.num
        * x2.den) * (x.den * y.den)) by (nonlinear_arith)
        requires
            x.num * x2.den == x2.num * x.den,
    ;
    assert((y.num * x.den + x.num * y.den) * (y.den * x2.den) == (y.num * x2.den + x2.num
        * y.den) * (y.den * x.den)) by (nonlinear_arith)
        requires
            x.num * x2.den == x2.num * x.den,
    ;
}

/// Addition of fractions is associative, pair for pair.
#[verifier::rlimit(100)]
pub proof fn lemma_rat_add_assoc(x: Rat, y: Rat, z: Rat)
    ensures
        rat_add(rat_add(x, y), z) == rat_add(x, rat_add(y, z)),
{
    assert((x.num * y.den + y.num * x.den) * z.den + z.num * (x.den * y.den) == x.num * (y.den
        * z.den) + ((y.num * z.den) * x.den + (z.num * y.den) * x.den)) by (nonlinear_arith);
    assert((y.num * z.den + z.num * y.den) * x.den == (y.num * z.den) * x.den + (z.num * y.den)
        * x.den) by (nonlinear_arith);
    assert((x.den * y.den) * z.den == x.den * (y.den * z.den)) by (nonlinear_arith);
}

/// Adding any fraction that is mathematically zero does not change the
/// value.
pub proof fn lemma_rat_add_zero_right(r: Rat, z: Rat)
    requires
        z.num == 0,
        z.den > 0,
        r.den > 0,
    ensures
        rat_eq(rat_add(r, z), r),
        rat_wf(rat_add(r, z)),
{
    assert((r.num * z.den + z.num * r.den) * r.den == r.num * (r.den * z.den))
        by (nonlinear_arith)
        requires
            z.num == 0,
    ;
    assert(r.den * z.den > 0) by (nonlinear_arith)
        requires
            r.den > 0,
            z.den > 0,
    ;
}

/// Sums, differences and products of well-formed fractions are well
/// formed.
pub proof fn lemma_rat_ops_wf(a: Rat, b: Rat)
    requires
        rat_wf(a),
        rat_wf(b),
    ensures
        rat_wf(rat_add(a, b)),
        rat_wf(rat_sub(a, b)),
        rat_wf(rat_mul(a, b)),
        rat_wf(rat_neg(a)),
{
    assert(a.den * b.den > 0) by (nonlinear_arith)
        requires
            a.den > 0,
            b.den > 0,
    ;
}

/// A quotient by a nonzero fraction is well formed.
pub proof fn lemma_rat_div_wf(a: Rat, b: Rat)
    requires
        rat_wf(a),
        rat_wf(b),
        b.num != 0,
    ensures
        rat_wf(rat_div(a, b)),
{
    if b.num >= 0 {
        assert(a.den * b.num > 0) by (nonlinear_arith)
            requires
                a.den > 0,
                b.num > 0,
        ;
    } else {
        assert(-(a.den * b.num) > 0) by (nonlinear_arith)
            requires
                a.den > 0,
                b.num < 0,
        ;
    }
}

/// An exact rational scalar: the fraction `num / den`.
#[derive(Clone, Copy, Debug, PartialEq, Eq, Structural)]
pub struct Scalar {
    pub num: i64,
    pub den: i64,
}

impl View for Scalar {
    type V = Rat;

    open spec fn view(&self) -> Rat {
        Rat { num: self.num as int, den: self.den as int }
    }
}

/// A well-formed scalar: positive denominator, numerator never the one
/// value whose negation would overflow.
pub open spec fn scalar_wf(s: Scalar) -> bool {
    rat_fits(s@)
}

/// The product of two integers in the `i64` range stays well inside `i128`.
proof fn lemma_mul_range(a: int, b: int)
    by (nonlinear_arith)
    requires
        -0x7fff_ffff_ffff_ffff <= a <= 0x7fff_ffff_ffff_ffff,
        -0x7fff_ffff_ffff_ffff <= b <= 0x7fff_ffff_ffff_ffff,
    ensures
        -(0x7fff_ffff_ffff_ffff * 0x7fff_ffff_ffff_ffff) <= a * b <= 0x7fff_ffff_ffff_ffff
            * 0x7fff_ffff_ffff_ffff,
        a >= 1 && b >= 1 ==> a * b >= 1,
        a >= 1 && b <= -1 ==> a * b <= -1,
{
}

impl Scalar {
    /// The fraction `num / den`, its denominator normalized to be
    /// positive.  `None` exactly when `den` is zero or either argument
    /// is the unrepresentable extreme.
    pub fn new(num: i64, den: i64) -> (r: Option<Scalar>)
        ensures
            r is Some <==> den != 0 && num != i64::MIN && den != i64::MIN,
            r is Some ==> scalar_wf(r->Some_0),
            den > 0 && num != i64::MIN ==> r == Some(Scalar { num, den }),
            den < 0 && num != i64::MIN && den != i64::MIN ==> r == (Some(
                Scalar { num: (-num) as i64, den: (-den) as i64 },
            )),
    {
        if den == 0 || num == i64::MIN || den == i64::MIN {
            None
        } else if den > 0 {
            Some(Scalar { num, den })
        } else {
            Some(Scalar { num: -num, den: -den })
        }
    }

    /// The integer `n` as a scalar.
    pub fn from_int(n: i64) -> (r: Scalar)
        requires
            n != i64::MIN,
        ensures
            scalar_wf(r),
            r@ == rat_int(n as int),
    {
        Scalar { num: n, den: 1 }
    }

    pub fn zero() -> (r: Scalar)
        ensures
            scalar_wf(r),
            r@ == rat_int(0),
    {
        Scalar { num: 0, den: 1 }
    }

    pub fn one() -> (r: Scalar)
        ensures
            scalar_wf(r),
            r@ == rat_int(1),
    {
        Scalar { num: 1, den: 1 }
    }

    /// Whether the scalar is exactly zero.
    pub fn is_zero(&self) -> (r: bool)
        ensures
            r == (self@.num == 0),
    {
        self.num == 0
    }

    /// Mathematical equality: `a/b == c/d` iff `a*d == c*b`.
    pub fn eq_value(&self, other: &Scalar) -> (r: bool)
        requires
            scalar_wf(*self),
            scalar_wf(*other),
        ensures
            r == rat_eq(self@, other@),
    {
        proof {
            lemma_mul_range(self.num as int, other.den as int);
            lemma_mul_range(other.num as int, self.den as int);
        }
        (self.num as i128) * (other.den as i128) == (other.num as i128) * (self.den as i128)
    }

    /// Exact negation; always representable for a well-formed scalar.
    pub fn neg(&self) -> (r: Scalar)
        requires
            scalar_wf(*self),
        ensures
            scalar_wf(r),
            r@ == rat_neg(self@),
    {
        Scalar { num: -self.num, den: self.den }
    }

    /// Exact sum; `None` exactly when the unreduced result does not fit.
    pub fn checked_add(&self, other: &Scalar) -> (r: Option<Scalar>)
        requires
            scalar_wf(*self),
            scalar_wf(*other),
        ensures
            r is Some <==> rat_fits(rat_add(self@, other@)),
            r is Some ==> scalar_wf(r->Some_0) && r->Some_0@ == rat_add(self@, other@),
    {
        proof {
            lemma_mul_range(self.num as int, other.den as int);
            lemma_mul_range(other.num as int, self.den as int);
            lemma_mul_range(self.den as int, other.den as int);
        }
        let num = (self.num as i128) * (other.den as i128) + (other.num as i128) * (self.den
            as i128);
        let den = (self.den as i128) * (other.den as i128);
        Self::clamp(num, den)
    }

    /// Exact difference; `None` exactly when the result does not fit.
    pub fn checked_sub(&self, other: &Scalar) -> (r: Option<Scalar>)
        requires
            scalar_wf(*self),
            scalar_wf(*other),
        ensures
            r is Some <==> rat_fits(rat_sub(self@, other@)),
            r is Some ==> scalar_wf(r->Some_0) && r->Some_0@ == rat_sub(self@, other@),
    {
        proof {
            lemma_mul_range(self.num as int, other.den as int);
            lemma_mul_range(other.num as int, self.den as int);
            lemma_mul_range(self.den as int, other.den as int);
        }
        let num = (self.num as i128) * (other.den as i128) - (other.num as i128) * (self.den
            as i128);
        let den = (self.den as i128) * (other.den as i128);
        Self::clamp(num, den)
    }

    /// Exact product; `None` exactly when the result does not fit.
    pub fn checked_mul(&self, other: &Scalar) -> (r: Option<Scalar>)
        requires
            scalar_wf(*self),
            scalar_wf(*other),
        ensures
            r is Some <==> rat_fits(rat_mul(self@, other@)),
            r is Some ==> scalar_wf(r->Some_0) && r->Some_0@ == rat_mul(self@, other@),
    {
        proof {
            lemma_mul_range(self.num as int, other.num as int);
            lemma_mul_range(self.den as int, other.den as int);
        }
        let num = (self.num as i128) * (other.num as i128);
        let den = (self.den as i128) * (other.den as i128);
        Self::clamp(num, den)
    }

    /// Exact quotient; the divisor must be nonzero.  `None` exactly when
    /// the result does not fit.
    pub fn checked_div(&self, other: &Scalar) -> (r: Option<Scalar>)
        requires
            scalar_wf(*self),
            scalar_wf(*other),
            other@.num != 0,
        ensures
            r is Some <==> rat_fits(rat_div(self@, other@)),
            r is Some ==> scalar_wf(r->Some_0) && r->Some_0@ == rat_div(self@, other@),
    {
        proof {
            lemma_mul_range(self.num as int, other.den as int);
            lemma_mul_range(self.den as int, other.num as int);
        }
        let num = (self.num as i128) * (other.den as i128);
        let den = (self.den as i128) * (other.num as i128);
        if other.num >= 0 {
            Self::clamp(num, den)
        } else {
            Self::clamp(-num, -den)
        }
    }

    /// Narrows an exactly computed fraction back to machine width.
    fn clamp(num: i128, den: i128) -> (r: Option<Scalar>)
        requires
            -0x7fff_ffff_ffff_ffff_ffff_ffff_ffff_ffff <= num,
            num <= 0x7fff_ffff_ffff_ffff_ffff_ffff_ffff_ffff,
            -0x7fff_ffff_ffff_ffff_ffff_ffff_ffff_ffff <= den,
            den <= 0x7fff_ffff_ffff_ffff_ffff_ffff_ffff_ffff,
        ensures
            r is Some <==> rat_fits(Rat { num: num as int, den: den as int }),
            r is Some ==> scalar_wf(r->Some_0) && r->Some_0@ == (Rat {
                num: num as int,
                den: den as int,
            }),
    {
        if -0x7fff_ffff_ffff_ffffi128 <= num && num <= 0x7fff_ffff_ffff_ffffi128 && 0 < den
            && den <= 0x7fff_ffff_ffff_ffffi128 {
            Some(Scalar { num: num as i64, den: den as i64 })
        } else {
            None
        }
    }
}

} // verus!
