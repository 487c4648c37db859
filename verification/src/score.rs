//! Exact rational relevance scores.
//!
//! A score is a fraction `num / den` of machine integers. Scores are compared
//! by cross-multiplication, so no rounding ever decides an ordering.

use vstd::prelude::*;

verus! {

/// The mathematical value of a score: a fraction of unbounded integers.
pub struct Ratio {
    pub num: int,
    pub den: int,
}

impl Ratio {
    /// A fraction is meaningful when its denominator is positive.
    pub open spec fn wf(self) -> bool {
        self.den > 0
    }

    /// `self < other` as rationals, for positive denominators.
    pub open spec fn lt(self, other: Ratio) -> bool {
        self.num * other.den < other.num * self.den
    }

    /// `self <= other` as rationals, for positive denominators.
    pub open spec fn le(self, other: Ratio) -> bool {
        self.num * other.den <= other.num * self.den
    }

    /// `self == other` as rationals, for positive denominators.
    pub open spec fn same_value(self, other: Ratio) -> bool {
        self.num * other.den == other.num * self.den
    }

    /// The rational sum, written over the product of the denominators.
    pub open spec fn plus(self, other: Ratio) -> Ratio {
        Ratio { num: self.num * other.den + other.num * self.den, den: self.den * other.den }
    }

    /// The inverse `den / num` of a positive fraction.
    pub open spec fn inverse(self) -> Ratio {
        Ratio { num: self.den, den: self.num }
    }

    /// The whole number `n`.
    pub open spec fn whole(n: int) -> Ratio {
        Ratio { num: n, den: 1 }
    }

    /// The unit fraction `1 / n`.
    pub open spec fn unit(n: int) -> Ratio {
        Ratio { num: 1, den: n }
    }
}

/// A relevance score held as a fraction of machine integers.
///
/// `==` holds of two scores that are written alike; two scores that denote
/// one number, such as `1/2` and `2/4`, are told by [`Score::same_value`].
#[derive(Clone, Copy, Debug, PartialEq, Eq)]
pub struct Score {
    pub num: i64,
    pub den: u64,
}

impl View for Score {
    type V = Ratio;

    open spec fn view(&self) -> Ratio {
        Ratio { num: self.num as int, den: self.den as int }
    }
}

impl Score {
    /// A score is well formed when its denominator is not zero.
    pub open spec fn wf(self) -> bool {
        self.den > 0
    }

    /// The fraction `num / den`, or `None` when `den` is zero.
    pub fn new(num: i64, den: u64) -> (r: Option<Score>)
        ensures
            den == 0 <==> r is None,
            r matches Some(s) ==> s.num == num && s.den == den && s.wf(),
    {
        if den == 0 {
            None
        } else {
            Some(Score { num, den })
        }
    }

    /// The whole number `n`.
    pub fn whole(n: i64) -> (r: Score)
        ensures
            r@ == Ratio::whole(n as int),
            r.wf(),
    {
        Score { num: n, den: 1 }
    }

    /// The score zero.
    pub fn zero() -> (r: Score)
        ensures
            r@ == Ratio::whole(0),
            r.wf(),
    {
        Score { num: 0, den: 1 }
    }

    /// The score one.
    pub fn one() -> (r: Score)
        ensures
            r@ == Ratio::whole(1),
            r.wf(),
    {
        Score { num: 1, den: 1 }
    }

    /// Whether `self` is strictly below `other`.
    pub fn less_than(&self, other: &Score) -> (r: bool)
        ensures
            r == self@.lt(other@),
    {
        let left: i128 = Self::cross(self.num, other.den);
        let right: i128 = Self::cross(other.num, self.den);
        left < right
    }

    /// Whether `self` is at most `other`.
    pub fn at_most(&self, other: &Score) -> (r: bool)
        ensures
            r == self@.le(other@),
    {
        let left: i128 = Self::cross(self.num, other.den);
        let right: i128 = Self::cross(other.num, self.den);
        left <= right
    }

    /// Whether `self` and `other` denote the same rational number.
    pub fn same_value(&self, other: &Score) -> (r: bool)
        ensures
            r == self@.same_value(other@),
    {
        let left: i128 = Self::cross(self.num, other.den);
        let right: i128 = Self::cross(other.num, self.den);
        left == right
    }

    /// The sum of two scores, or `None` when it does not fit the machine
    /// integers of a score.
    pub fn checked_add(&self, other: &Score) -> (r: Option<Score>)
        requires
            self.wf(),
            other.wf(),
        ensures
            r matches Some(s) ==> s@ == self@.plus(other@) && s.wf(),
            r is None <==> !(i64::MIN <= self@.plus(other@).num <= i64::MAX
                && self@.plus(other@).den <= u64::MAX),
    {
        let left: i128 = Self::cross(self.num, other.den);
        let right: i128 = Self::cross(other.num, self.den);
        let den: u128 = Self::wide_product(self.den, other.den);
        proof {
            assert(self.den * other.den >= 1) by (nonlinear_arith)
                requires
                    self.den >= 1,
                    other.den >= 1,
            ;
        }
        // |left| and |right| are each below 2^127, so their sum may leave i128.
        match left.checked_add(right) {
            None => None,
            Some(num) => {
                if num < i64::MIN as i128 || num > i64::MAX as i128 || den > u64::MAX as u128 {
                    None
                } else {
                    Some(Score { num: num as i64, den: den as u64 })
                }
            },
        }
    }

    /// The product `a * b`, which always fits 128 bits.
    fn cross(a: i64, b: u64) -> (r: i128)
        ensures
            r == a * b,
    {
        proof {
            assert(-0x8000_0000_0000_0000 * 0xffff_ffff_ffff_ffff <= a * b
                <= 0x7fff_ffff_ffff_ffff * 0xffff_ffff_ffff_ffff) by (nonlinear_arith)
                requires
                    -0x8000_0000_0000_0000 <= a <= 0x7fff_ffff_ffff_ffff,
                    0 <= b <= 0xffff_ffff_ffff_ffff,
            ;
        }
        (a as i128) * (b as i128)
    }

    /// The product `a * b` of two denominators, which always fits 128 bits.
    fn wide_product(a: u64, b: u64) -> (r: u128)
        ensures
            r == a * b,
    {
        proof {
            assert(0 <= a * b <= 0xffff_ffff_ffff_ffff * 0xffff_ffff_ffff_ffff)
                by (nonlinear_arith)
                requires
                    0 <= a <= 0xffff_ffff_ffff_ffff,
                    0 <= b <= 0xffff_ffff_ffff_ffff,
            ;
        }
        (a as u128) * (b as u128)
    }
}

} // verus!

verus! {

/// The order of fractions with positive denominators is transitive.
pub proof fn lemma_le_transitive(a: Ratio, b: Ratio, c: Ratio)
    requires
        a.wf(),
        b.wf(),
        c.wf(),
        a.le(b),
        b.le(c),
    ensures
        a.le(c),
{
    assert(a.num * b.den * c.den <= b.num * a.den * c.den) by (nonlinear_arith)
        requires
            a.num * b.den <= b.num * a.den,
            c.den > 0,
    ;
    assert(b.num * c.den * a.den <= c.num * b.den * a.den) by (nonlinear_arith)
        requires
            b.num * c.den <= c.num * b.den,
            a.den > 0,
    ;
    assert(a.num * c.den <= c.num * a.den) by (nonlinear_arith)
        requires
            a.num * b.den * c.den <= b.num * a.den * c.den,
            b.num * c.den * a.den <= c.num * b.den * a.den,
            b.den > 0,
    ;
}

/// Any two fractions compare: one is below the other exactly where the
/// other is not at most the one, and two fractions are the same number
/// exactly where each is at most the other.
pub proof fn lemma_order_is_total(a: Ratio, b: Ratio)
    ensures
        a.lt(b) <==> !b.le(a),
        a.same_value(b) <==> a.le(b) && b.le(a),
{
}

/// Adding a positive fraction gives a strictly larger one.
pub proof fn lemma_plus_positive_grows(a: Ratio, b: Ratio)
    requires
        a.wf(),
        b.wf(),
        b.num > 0,
    ensures
        a.lt(a.plus(b)),
        a.plus(b).wf(),
{
    let s = a.plus(b);
    assert(s.den > 0) by (nonlinear_arith)
        requires
            s.den == a.den * b.den,
            a.den > 0,
            b.den > 0,
    ;
    assert(a.num * (a.den * b.den) < (a.num * b.den + b.num * a.den) * a.den)
        by (nonlinear_arith)
        requires
            a.den > 0,
            b.den > 0,
            b.num > 0,
    ;
}

} // verus!
