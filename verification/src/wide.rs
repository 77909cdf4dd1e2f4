//! Fractions of 128-bit integers: the values of expressions.
//!
//! A sum, a difference, a product and a quotient are computed exactly and
//! then reduced to lowest terms, so that what is carried on stays as small
//! as its value allows.

use vstd::prelude::*;

use crate::ratio::{Frac, Ratio};

verus! {

/// The greatest common divisor of two natural numbers, as Euclid finds it;
/// that of a number and zero is the number.
pub open spec fn gcd(a: nat, b: nat) -> nat
    decreases b,
{
    if b == 0 {
        a
    } else {
        gcd(b, a % b)
    }
}

/// The size of a whole number, its sign left out.
pub open spec fn size(x: int) -> nat {
    if x < 0 {
        (-x) as nat
    } else {
        x as nat
    }
}

/// Whether a whole number can be a part of a wide fraction: it and its
/// opposite fit in 128 bits.
pub open spec fn fits_part(x: int) -> bool {
    -i128::MAX <= x <= i128::MAX
}

/// The fraction in lowest terms: both parts divided by their greatest
/// common divisor, the sign staying with the numerator.
pub open spec fn reduced(value: Frac) -> Frac {
    let g = gcd(size(value.num), size(value.den)) as int;
    Frac {
        num: if value.num >= 0 {
            value.num / g
        } else {
            -((-value.num) / g)
        },
        den: value.den / g,
    }
}

/// The sum in lowest terms; `None` where a product of parts, or the sum of
/// two such products, does not fit in 128 bits.
pub open spec fn sum_of(x: Frac, y: Frac) -> Option<Frac> {
    if fits_part(x.num * y.den) && fits_part(y.num * x.den) && fits_part(x.plus(y).num)
        && fits_part(x.plus(y).den) {
        Some(reduced(x.plus(y)))
    } else {
        None
    }
}

/// The difference in lowest terms; `None` where a product of parts, or the
/// difference of two such products, does not fit in 128 bits.
pub open spec fn difference_of(x: Frac, y: Frac) -> Option<Frac> {
    if fits_part(x.num * y.den) && fits_part(y.num * x.den) && fits_part(x.minus(y).num)
        && fits_part(x.minus(y).den) {
        Some(reduced(x.minus(y)))
    } else {
        None
    }
}

/// The product in lowest terms; `None` where a product of parts does not
/// fit in 128 bits.
pub open spec fn product_of(x: Frac, y: Frac) -> Option<Frac> {
    if fits_part(x.times(y).num) && fits_part(x.times(y).den) {
        Some(reduced(x.times(y)))
    } else {
        None
    }
}

/// The quotient by a fraction that is not zero, in lowest terms; `None`
/// where a product of parts does not fit in 128 bits.
pub open spec fn quotient_of(x: Frac, y: Frac) -> Option<Frac> {
    if fits_part(x.num * y.den) && fits_part(x.den * y.num) {
        Some(reduced(x.over(y)))
    } else {
        None
    }
}

/// The greatest common divisor of a number and a positive one is positive
/// and not above the positive one.
pub proof fn lemma_gcd_bounds(a: nat, b: nat)
    requires
        b > 0,
    ensures
        0 < gcd(a, b) <= b,
    decreases b,
{
    if a % b != 0 {
        lemma_gcd_bounds(b, a % b);
    } else {
        assert(gcd(b, 0) == b);
    }
}

/// The greatest common divisor divides both numbers.
pub proof fn lemma_gcd_divides(a: nat, b: nat)
    requires
        a > 0 || b > 0,
    ensures
        gcd(a, b) > 0,
        a as int % gcd(a, b) as int == 0,
        b as int % gcd(a, b) as int == 0,
    decreases b,
{
    if b == 0 {
        vstd::arithmetic::div_mod::lemma_mod_self_0(a as int);
    } else {
        let r = a % b;
        let g = gcd(b, r) as int;
        lemma_gcd_divides(b, r);
        let q = a as int / b as int;
        vstd::arithmetic::div_mod::lemma_fundamental_div_mod(a as int, b as int);
        vstd::arithmetic::div_mod::lemma_fundamental_div_mod(b as int, g);
        vstd::arithmetic::div_mod::lemma_fundamental_div_mod(r as int, g);
        let kb = b as int / g;
        let kr = r as int / g;
        assert(b == g * kb);
        assert(r == g * kr);
        assert(a == (kb * q + kr) * g) by (nonlinear_arith)
            requires
                a == b * q + r,
                b == g * kb,
                r == g * kr,
        ;
        vstd::arithmetic::div_mod::lemma_fundamental_div_mod_converse(
            a as int,
            g,
            kb * q + kr,
            0,
        );
    }
}

/// Reducing a fraction keeps its value and its form: the fraction in
/// lowest terms is the same rational number, with a positive denominator
/// and parts no greater in size.
pub proof fn lemma_reduced_is_same(value: Frac)
    requires
        value.wf(),
    ensures
        reduced(value).wf(),
        reduced(value).same(value),
        size(reduced(value).num) <= size(value.num),
        reduced(value).den <= value.den,
{
    let a = size(value.num);
    let b = size(value.den);
    let g = gcd(a, b) as int;
    lemma_gcd_bounds(a, b);
    lemma_gcd_divides(a, b);
    vstd::arithmetic::div_mod::lemma_fundamental_div_mod(a as int, g);
    vstd::arithmetic::div_mod::lemma_fundamental_div_mod(b as int, g);
    let ka = a as int / g;
    let kb = b as int / g;
    assert(a == g * ka);
    assert(b == g * kb);
    assert(kb >= 1 && kb <= b && 0 <= ka <= a) by (nonlinear_arith)
        requires
            a == g * ka,
            b == g * kb,
            g >= 1,
            b >= 1,
            a >= 0,
    ;
    assert(ka * (g * kb) == (g * ka) * kb) by (nonlinear_arith);
    assert((-ka) * (g * kb) == (-(g * ka)) * kb) by (nonlinear_arith);
}

/// A fraction of two 128-bit integers, the value of an expression.
#[derive(Clone, Copy, Debug)]
pub struct Wide {
    pub num: i128,
    pub den: i128,
}

impl View for Wide {
    type V = Frac;

    open spec fn view(&self) -> Frac {
        Frac { num: self.num as int, den: self.den as int }
    }
}

/// The fractions that a vector of wide fractions stands for.
pub open spec fn frac_of_wide(value: Option<Wide>) -> Option<Frac> {
    match value {
        Some(w) => Some(w@),
        None => None,
    }
}

/// The product of two parts, where it can be a part.
fn part_product(a: i128, b: i128) -> (p: Option<i128>)
    ensures
        p matches Some(v) ==> v == a * b && fits_part(v as int),
        p is None <==> !fits_part(a * b),
{
    match a.checked_mul(b) {
        Some(v) => if v == i128::MIN {
            None
        } else {
            Some(v)
        },
        None => None,
    }
}

/// The sum of two parts, where it can be a part.
fn part_sum(a: i128, b: i128) -> (s: Option<i128>)
    ensures
        s matches Some(v) ==> v == a + b && fits_part(v as int),
        s is None <==> !fits_part(a + b),
{
    match a.checked_add(b) {
        Some(v) => if v == i128::MIN {
            None
        } else {
            Some(v)
        },
        None => None,
    }
}

/// The greatest common divisor of two numbers.
pub fn gcd_of(a: u128, b: u128) -> (g: u128)
    ensures
        g == gcd(a as nat, b as nat),
{
    let mut x = a;
    let mut y = b;
    while y != 0
        invariant
            gcd(x as nat, y as nat) == gcd(a as nat, b as nat),
        decreases y,
    {
        let r = x % y;
        x = y;
        y = r;
    }
    x
}

impl Wide {
    /// A wide fraction is well formed when its denominator is positive and
    /// its numerator can be a part.
    pub open spec fn wf(self) -> bool {
        self.den > 0 && fits_part(self.num as int)
    }

    /// The fraction zero, written `0 / 1`.
    pub fn zero() -> (w: Wide)
        ensures
            w@ == Frac::whole(0),
            w.wf(),
    {
        Wide { num: 0, den: 1 }
    }

    /// The whole number `n` as the fraction `n / 1`.
    pub fn from_count(n: u32) -> (w: Wide)
        ensures
            w@ == Frac::whole(n as int),
            w.wf(),
    {
        Wide { num: n as i128, den: 1 }
    }

    /// The same fraction with wide parts, as it is.
    pub fn from_ratio(value: &Ratio) -> (w: Wide)
        ensures
            w@ == value@,
            value.wf() ==> w.wf(),
    {
        Wide { num: value.num as i128, den: value.den as i128 }
    }

    /// The fraction of two parts in lowest terms.
    pub fn reduce(num: i128, den: i128) -> (w: Wide)
        requires
            fits_part(num as int),
            den > 0,
        ensures
            w@ == reduced(Frac { num: num as int, den: den as int }),
            w.wf(),
    {
        let above: u128 = if num < 0 {
            (-num) as u128
        } else {
            num as u128
        };
        let g = gcd_of(above, den as u128);
        proof {
            lemma_gcd_bounds(above as nat, den as nat);
            lemma_reduced_is_same(Frac { num: num as int, den: den as int });
        }
        let top = (above / g) as i128;
        Wide {
            num: if num < 0 {
                -top
            } else {
                top
            },
            den: (den as u128 / g) as i128,
        }
    }

    /// The sum of two fractions in lowest terms; `None` where a part of
    /// computing it does not fit in 128 bits.
    pub fn plus(&self, other: &Wide) -> (sum: Option<Wide>)
        requires
            self.wf(),
            other.wf(),
        ensures
            frac_of_wide(sum) == sum_of(self@, other@),
            sum matches Some(w) ==> w.wf(),
    {
        let left = part_product(self.num, other.den)?;
        let right = part_product(other.num, self.den)?;
        let num = part_sum(left, right)?;
        let den = part_product(self.den, other.den)?;
        assert(den > 0) by (nonlinear_arith)
            requires
                den == self.den * other.den,
                self.den > 0,
                other.den > 0,
        ;
        Some(Wide::reduce(num, den))
    }

    /// The difference of two fractions in lowest terms; `None` where a part
    /// of computing it does not fit in 128 bits.
    pub fn minus(&self, other: &Wide) -> (difference: Option<Wide>)
        requires
            self.wf(),
            other.wf(),
        ensures
            frac_of_wide(difference) == difference_of(self@, other@),
            difference matches Some(w) ==> w.wf(),
    {
        let left = part_product(self.num, other.den)?;
        let right = part_product(other.num, self.den)?;
        let num = part_sum(left, -right)?;
        let den = part_product(self.den, other.den)?;
        assert(den > 0) by (nonlinear_arith)
            requires
                den == self.den * other.den,
                self.den > 0,
                other.den > 0,
        ;
        Some(Wide::reduce(num, den))
    }

    /// The product of two fractions in lowest terms; `None` where a part of
    /// computing it does not fit in 128 bits.
    pub fn times(&self, other: &Wide) -> (product: Option<Wide>)
        requires
            self.wf(),
            other.wf(),
        ensures
            frac_of_wide(product) == product_of(self@, other@),
            product matches Some(w) ==> w.wf(),
    {
        let num = part_product(self.num, other.num)?;
        let den = part_product(self.den, other.den)?;
        assert(den > 0) by (nonlinear_arith)
            requires
                den == self.den * other.den,
                self.den > 0,
                other.den > 0,
        ;
        Some(Wide::reduce(num, den))
    }

    /// The quotient by a fraction that is not zero, in lowest terms; `None`
    /// where a part of computing it does not fit in 128 bits.
    pub fn over(&self, other: &Wide) -> (quotient: Option<Wide>)
        requires
            self.wf(),
            other.wf(),
            other.num != 0,
        ensures
            frac_of_wide(quotient) == quotient_of(self@, other@),
            quotient matches Some(w) ==> w.wf(),
    {
        let num = part_product(self.num, other.den)?;
        let den = part_product(self.den, other.num)?;
        if other.num > 0 {
            assert(den > 0) by (nonlinear_arith)
                requires
                    den == self.den * other.num,
                    self.den > 0,
                    other.num > 0,
            ;
            Some(Wide::reduce(num, den))
        } else {
            assert(den < 0) by (nonlinear_arith)
                requires
                    den == self.den * other.num,
                    self.den > 0,
                    other.num < 0,
            ;
            Some(Wide::reduce(-num, -den))
        }
    }

    /// The fraction with the opposite sign.
    pub fn negated(&self) -> (opposite: Wide)
        requires
            self.wf(),
        ensures
            opposite@ == self@.negated(),
            opposite.wf(),
    {
        Wide { num: -self.num, den: self.den }
    }
}

/// The same fractions with wide parts, each as it is.
pub fn widened(values: &Vec<Ratio>) -> (wide: Vec<Wide>)
    ensures
        wide.len() == values.len(),
        forall|i: int| 0 <= i < wide.len() ==> (#[trigger] wide[i])@ == values[i]@,
        forall|i: int| 0 <= i < wide.len() ==> (values[i].wf() ==> (#[trigger] wide[i]).wf()),
{
    let mut wide: Vec<Wide> = Vec::new();
    let mut i: usize = 0;
    while i < values.len()
        invariant
            i <= values.len(),
            wide.len() == i,
            forall|j: int| 0 <= j < i ==> (#[trigger] wide[j])@ == values[j]@,
            forall|j: int| 0 <= j < i ==> (values[j].wf() ==> (#[trigger] wide[j]).wf()),
        decreases values.len() - i,
    {
        wide.push(Wide::from_ratio(&values[i]));
        i += 1;
    }
    wide
}

} // verus!
