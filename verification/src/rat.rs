use vstd::prelude::*;

verus! {

/// An exact rational number `num / den` with `den > 0`.
///
/// Values are kept unreduced; two `Rat`s denote the same rational exactly
/// when the cross products of their parts agree (see [`RatG::eq_with`]).
#[derive(Clone, Copy, Debug, PartialEq, Eq, Structural)]
pub struct Rat {
    pub num: i128,
    pub den: i128,
}

/// The mathematical value of a [`Rat`]: the same pair over unbounded integers.
pub struct RatG {
    pub num: int,
    pub den: int,
}

impl View for Rat {
    type V = RatG;

    open spec fn view(&self) -> RatG {
        RatG { num: self.num as int, den: self.den as int }
    }
}

impl DeepView for Rat {
    type V = RatG;

    open spec fn deep_view(&self) -> RatG {
        self.view()
    }
}

impl RatG {
    /// A well-formed rational has a positive denominator.
    pub open spec fn wf(self) -> bool {
        self.den > 0
    }

    /// `self` and `other` denote the same rational number.
    pub open spec fn eq_with(self, other: RatG) -> bool {
        self.num * other.den == other.num * self.den
    }

    /// `self <= other` as rational numbers (meaningful for positive denominators).
    pub open spec fn le_with(self, other: RatG) -> bool {
        self.num * other.den <= other.num * self.den
    }

    /// `self` denotes the rational `n / d`.
    pub open spec fn is_frac(self, n: int, d: int) -> bool {
        self.den > 0 && d > 0 && self.num * d == n * self.den
    }
}

impl Rat {
    /// A well-formed rational has a positive denominator.
    pub open spec fn wf(self) -> bool {
        self.den > 0
    }

    /// Builds the rational `num / den`.
    pub fn new(num: i128, den: i128) -> (r: Rat)
        requires
            den > 0,
        ensures
            r.num == num,
            r.den == den,
    {
        Rat { num, den }
    }

    /// Builds the rational denoting the integer `v`.
    pub fn whole(v: i128) -> (r: Rat)
        ensures
            r.num == v,
            r.den == 1,
    {
        Rat { num: v, den: 1 }
    }

    /// Decides semantic equality of two rationals by cross multiplication.
    pub fn eq_rat(&self, other: &Rat) -> (r: bool)
        requires
            i128::MIN <= self.num * other.den <= i128::MAX,
            i128::MIN <= other.num * self.den <= i128::MAX,
        ensures
            r == self@.eq_with(other@),
    {
        self.num * other.den == other.num * self.den
    }

    /// Decides `self <= other` by cross multiplication.
    pub fn le_rat(&self, other: &Rat) -> (r: bool)
        requires
            self.wf(),
            other.wf(),
            i128::MIN <= self.num * other.den <= i128::MAX,
            i128::MIN <= other.num * self.den <= i128::MAX,
        ensures
            r == self@.le_with(other@),
    {
        self.num * other.den <= other.num * self.den
    }
}

/// `|a * b| <= bound_a * bound_b` whenever `|a| <= bound_a` and `|b| <= bound_b`.
pub(crate) proof fn lemma_mul_bound(a: int, b: int, bound_a: int, bound_b: int)
    by (nonlinear_arith)
    requires
        -bound_a <= a <= bound_a,
        -bound_b <= b <= bound_b,
        0 <= bound_a,
        0 <= bound_b,
    ensures
        -(bound_a * bound_b) <= a * b <= bound_a * bound_b,
{
}

} // verus!
