//! Exact fractions of 64-bit integers.

use vstd::prelude::*;

verus! {

/// A fraction of two mathematical integers: what a [`Ratio`] stands for.
pub struct Frac {
    pub num: int,
    pub den: int,
}

impl Frac {
    /// A fraction is well formed when its denominator is positive.
    pub open spec fn wf(self) -> bool {
        self.den > 0
    }

    /// The whole number `n`, written `n / 1`.
    pub open spec fn whole(n: int) -> Frac {
        Frac { num: n, den: 1 }
    }

    /// `self` and `other` are the same rational number.
    pub open spec fn same(self, other: Frac) -> bool {
        self.num * other.den == other.num * self.den
    }

    /// `self` is strictly below `other` as a rational number.
    pub open spec fn lt(self, other: Frac) -> bool {
        self.num * other.den < other.num * self.den
    }

    /// `self` is at most `other` as a rational number.
    pub open spec fn le(self, other: Frac) -> bool {
        self.num * other.den <= other.num * self.den
    }

    /// The sum, over the product of the denominators.
    pub open spec fn plus(self, other: Frac) -> Frac {
        Frac { num: self.num * other.den + other.num * self.den, den: self.den * other.den }
    }

    /// The difference, over the product of the denominators.
    pub open spec fn minus(self, other: Frac) -> Frac {
        Frac { num: self.num * other.den - other.num * self.den, den: self.den * other.den }
    }

    /// The product, numerator by numerator and denominator by denominator.
    pub open spec fn times(self, other: Frac) -> Frac {
        Frac { num: self.num * other.num, den: self.den * other.den }
    }

    /// The quotient by a fraction that is not zero, with the sign carried by
    /// the numerator.
    pub open spec fn over(self, other: Frac) -> Frac {
        if other.num > 0 {
            Frac { num: self.num * other.den, den: self.den * other.num }
        } else {
            Frac { num: -(self.num * other.den), den: -(self.den * other.num) }
        }
    }

    /// The fraction with the opposite sign.
    pub open spec fn negated(self) -> Frac {
        Frac { num: -self.num, den: self.den }
    }

    /// The nearest whole number, a tie going to the even neighbour.
    pub open spec fn rounded(self) -> int {
        let q = self.num / self.den;
        let r = self.num % self.den;
        if 2 * r < self.den {
            q
        } else if 2 * r > self.den {
            q + 1
        } else if q % 2 == 0 {
            q
        } else {
            q + 1
        }
    }

    /// The fraction multiplied by the whole number `k`.
    pub open spec fn scaled(self, k: int) -> Frac {
        Frac { num: self.num * k, den: self.den }
    }
}

/// The fraction `num / den` of a metric. It is kept as its formula gives
/// it, not reduced to lowest terms, so two fractions of the same value may
/// differ in their fields; compare them with [`Ratio::same_value`] and
/// [`Ratio::less_than`].
#[derive(Clone, Copy, Debug)]
pub struct Ratio {
    pub num: i64,
    pub den: i64,
}

impl View for Ratio {
    type V = Frac;

    open spec fn view(&self) -> Frac {
        Frac { num: self.num as int, den: self.den as int }
    }
}

impl Ratio {
    /// A fraction is well formed when its denominator is positive.
    pub open spec fn wf(self) -> bool {
        self@.wf()
    }

    /// The fraction zero, written `0 / 1`.
    pub fn zero() -> (r: Ratio)
        ensures
            r@ == Frac::whole(0),
    {
        Ratio { num: 0, den: 1 }
    }

    /// The whole number `n` as the fraction `n / 1`.
    pub fn from_count(n: u32) -> (r: Ratio)
        ensures
            r@ == Frac::whole(n as int),
    {
        Ratio { num: n as i64, den: 1 }
    }

    /// The fraction `num / den`, or `None` when `den` is not positive.
    pub fn new(num: i64, den: i64) -> (r: Option<Ratio>)
        ensures
            den > 0 ==> r == Some(Ratio { num, den }),
            den <= 0 ==> r is None,
    {
        if den > 0 {
            Some(Ratio { num, den })
        } else {
            None
        }
    }

    /// Whether the two fractions are the same rational number.
    pub fn same_value(&self, other: &Ratio) -> (b: bool)
        ensures
            b == self@.same(other@),
    {
        let left: i128 = cross(self.num, other.den);
        let right: i128 = cross(other.num, self.den);
        left == right
    }

    /// Whether `self` is strictly below `other`.
    pub fn less_than(&self, other: &Ratio) -> (b: bool)
        ensures
            b == self@.lt(other@),
    {
        let left: i128 = cross(self.num, other.den);
        let right: i128 = cross(other.num, self.den);
        left < right
    }

    /// Whether the fraction is above zero.
    pub fn is_positive(&self) -> (b: bool)
        requires
            self.wf(),
        ensures
            b == Frac::whole(0).lt(self@),
    {
        self.num > 0
    }
}

impl Ratio {
    /// The fraction multiplied by `scale` and rounded to the nearest whole
    /// number, a tie going to the even neighbour.
    pub fn rounded_scaled(&self, scale: u16) -> (n: i128)
        requires
            self.wf(),
        ensures
            n == self@.scaled(scale as int).rounded(),
            -0x4000_0000_0000_0000_0000_0000_0000_0000 <= n
                <= 0x4000_0000_0000_0000_0000_0000_0000_0001,
    {
        let num: i128 = cross(self.num, scale as i64);
        let den: i128 = self.den as i128;
        let (q, r) = floor_div(num, den);
        if 2 * r < den {
            q
        } else if 2 * r > den {
            q + 1
        } else if q % 2 == 0 {
            q
        } else {
            q + 1
        }
    }
}

/// The quotient of `a` by a positive `b`, rounded down, and what is left.
pub fn floor_div(a: i128, b: i128) -> (qr: (i128, i128))
    requires
        0 < b <= i64::MAX,
        -0x4000_0000_0000_0000_0000_0000_0000_0000 <= a <= 0x4000_0000_0000_0000_0000_0000_0000_0000,
    ensures
        qr.0 == a as int / b as int,
        qr.1 == a as int % b as int,
        -0x4000_0000_0000_0000_0000_0000_0000_0000 <= qr.0 <= 0x4000_0000_0000_0000_0000_0000_0000_0000,
        0 <= qr.1 < b,
{
    proof {
        vstd::arithmetic::div_mod::lemma_fundamental_div_mod(a as int, b as int);
        vstd::arithmetic::div_mod::lemma_mod_bound(a as int, b as int);
        lemma_floor_bound(a as int, b as int);
    }
    if a >= 0 {
        (a / b, a % b)
    } else {
        let up: i128 = -a;
        let q: i128 = up / b;
        let r: i128 = up % b;
        proof {
            vstd::arithmetic::div_mod::lemma_fundamental_div_mod(up as int, b as int);
            vstd::arithmetic::div_mod::lemma_mod_bound(up as int, b as int);
            lemma_floor_bound(up as int, b as int);
            assert(up == b * q + r);
            assert((-(q as int)) * b == -(b * q) && (-(q as int) - 1) * b == -(b * q) - b)
                by (nonlinear_arith);
            if r == 0 {
                vstd::arithmetic::div_mod::lemma_fundamental_div_mod_converse(
                    a as int,
                    b as int,
                    -(q as int),
                    0,
                );
            } else {
                vstd::arithmetic::div_mod::lemma_fundamental_div_mod_converse(
                    a as int,
                    b as int,
                    -(q as int) - 1,
                    b - r,
                );
            }
        }
        if r == 0 {
            (-q, 0)
        } else {
            (-q - 1, b - r)
        }
    }
}

/// The operations on well-formed fractions give well-formed fractions.
pub proof fn lemma_operations_are_well_formed(a: Frac, b: Frac)
    requires
        a.wf(),
        b.wf(),
    ensures
        a.plus(b).wf(),
        a.minus(b).wf(),
        a.times(b).wf(),
        a.negated().wf(),
        b.num != 0 ==> a.over(b).wf(),
{
    assert(a.den * b.den > 0) by (nonlinear_arith)
        requires
            a.den > 0,
            b.den > 0,
    ;
    if b.num > 0 {
        assert(a.den * b.num > 0) by (nonlinear_arith)
            requires
                a.den > 0,
                b.num > 0,
        ;
    }
    if b.num < 0 {
        assert(-(a.den * b.num) > 0) by (nonlinear_arith)
            requires
                a.den > 0,
                b.num < 0,
        ;
    }
}

/// The operations are those of the rational numbers: taking away what was
/// added, and dividing by what was multiplied by, give the value back.
pub proof fn lemma_operations_undo(a: Frac, b: Frac)
    requires
        a.wf(),
        b.wf(),
    ensures
        a.plus(b).minus(b).same(a),
        a.minus(b).plus(b).same(a),
        b.num != 0 ==> a.times(b).over(b).same(a),
        b.num != 0 ==> a.over(b).times(b).same(a),
{
    let (an, ad, bn, bd) = (a.num, a.den, b.num, b.den);
    assert(((an * bd + bn * ad) * bd - bn * (ad * bd)) * ad == an * ((ad * bd) * bd))
        by (nonlinear_arith);
    assert(((an * bd - bn * ad) * bd + bn * (ad * bd)) * ad == an * ((ad * bd) * bd))
        by (nonlinear_arith);
    if bn > 0 {
        assert(((an * bn) * bd) * ad == an * ((ad * bd) * bn)) by (nonlinear_arith);
        assert(((an * bd) * bn) * ad == an * ((ad * bn) * bd)) by (nonlinear_arith);
    }
    if bn < 0 {
        assert((-((an * bn) * bd)) * ad == an * (-((ad * bd) * bn))) by (nonlinear_arith);
        assert(((-(an * bd)) * bn) * ad == an * ((-(ad * bn)) * bd)) by (nonlinear_arith);
    }
}

/// The rounded fraction is a nearest whole number: it is at most a half
/// away from the fraction.
pub proof fn lemma_rounded_is_nearest(value: Frac)
    requires
        value.wf(),
    ensures
        -value.den <= 2 * (value.rounded() * value.den - value.num) <= value.den,
{
    let q = value.num / value.den;
    let r = value.num % value.den;
    vstd::arithmetic::div_mod::lemma_fundamental_div_mod(value.num, value.den);
    vstd::arithmetic::div_mod::lemma_mod_bound(value.num, value.den);
    assert(q * value.den == value.den * q) by (nonlinear_arith);
    assert((q + 1) * value.den == value.den * q + value.den) by (nonlinear_arith);
}

/// A quotient by a positive number is no further from zero than the
/// dividend.
proof fn lemma_floor_bound(a: int, b: int)
    requires
        b > 0,
    ensures
        a >= 0 ==> 0 <= a / b <= a,
        a < 0 ==> a <= a / b < 0,
{
    vstd::arithmetic::div_mod::lemma_fundamental_div_mod(a, b);
    vstd::arithmetic::div_mod::lemma_mod_bound(a, b);
    let q = a / b;
    let r = a % b;
    assert(a == b * q + r);
    if a >= 0 {
        assert(q >= 0) by (nonlinear_arith)
            requires
                a == b * q + r,
                0 <= r < b,
                a >= 0,
                b > 0,
        ;
        assert(q <= a) by (nonlinear_arith)
            requires
                a == b * q + r,
                0 <= r < b,
                q >= 0,
                b > 0,
        ;
    } else {
        assert(q < 0) by (nonlinear_arith)
            requires
                a == b * q + r,
                0 <= r < b,
                a < 0,
                b > 0,
        ;
        assert(a <= q) by (nonlinear_arith)
            requires
                a == b * q + r,
                0 <= r < b,
                q < 0,
                b > 0,
        ;
    }
}

/// The product of two 64-bit integers, which always fits in 128 bits.
pub fn cross(a: i64, b: i64) -> (p: i128)
    ensures
        p == a * b,
        -0x4000_0000_0000_0000_0000_0000_0000_0000 <= p <= 0x4000_0000_0000_0000_0000_0000_0000_0000,
{
    assert(-0x4000_0000_0000_0000_0000_0000_0000_0000 <= a * b
        <= 0x4000_0000_0000_0000_0000_0000_0000_0000) by (nonlinear_arith)
        requires
            -0x8000_0000_0000_0000 <= a <= 0x7fff_ffff_ffff_ffff,
            -0x8000_0000_0000_0000 <= b <= 0x7fff_ffff_ffff_ffff,
    ;
    (a as i128) * (b as i128)
}

} // verus!
