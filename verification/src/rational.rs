//! Exact fractions of 64-bit integers as scalars.
//!
//! A fraction with a positive denominator stands for the number it names; the
//! operations return such fractions in lowest terms.  A fraction whose
//! denominator is not positive stands for no number: the operations return
//! the undefined fraction `0/0` where the exact result has no place in 64
//! bits, where they divide by zero, and where an operand is undefined already.

use vstd::prelude::*;
use vstd::arithmetic::div_mod::{lemma_fundamental_div_mod, lemma_div_multiples_vanish};
use crate::scalar::Scalar;

verus! {

/// A fraction `num / den`.
#[derive(Clone, Copy, Debug, PartialEq, Eq, Structural)]
pub struct Rational {
    pub num: i64,
    pub den: i64,
}

/// The greatest common divisor, by Euclid's algorithm.
pub open spec fn gcd(a: nat, b: nat) -> nat
    decreases b,
{
    if b == 0 {
        a
    } else {
        gcd(b, a % b)
    }
}

/// The fraction that stands for no number.
pub open spec fn undefined() -> Rational {
    Rational { num: 0, den: 0 }
}

/// The magnitude of an integer.
pub open spec fn magnitude(n: int) -> nat {
    if n < 0 {
        (-n) as nat
    } else {
        n as nat
    }
}

/// The fraction `n / d` in lowest terms, where `d` is positive and both parts
/// of the result have a place in 64 bits; the undefined fraction otherwise.
pub open spec fn reduced(n: int, d: int) -> Rational {
    if d <= 0 {
        undefined()
    } else {
        let g = gcd(magnitude(n), d as nat) as int;
        let qn = magnitude(n) as int / g;
        let qd = d / g;
        if qn <= i64::MAX && qd <= i64::MAX {
            Rational {
                num: (if n < 0 {
                    -qn
                } else {
                    qn
                }) as i64,
                den: qd as i64,
            }
        } else {
            undefined()
        }
    }
}

/// The greatest common divisor of two numbers of which one is positive is
/// positive.
pub proof fn lemma_gcd_positive(a: nat, b: nat)
    requires
        a > 0 || b > 0,
    ensures
        gcd(a, b) > 0,
    decreases b,
{
    if b != 0 {
        lemma_gcd_positive(b, a % b);
    }
}

/// The greatest common divisor divides both numbers.
pub proof fn lemma_gcd_divides(a: nat, b: nat)
    requires
        a > 0 || b > 0,
    ensures
        gcd(a, b) * (a / gcd(a, b)) == a,
        gcd(a, b) * (b / gcd(a, b)) == b,
    decreases b,
{
    let g = gcd(a, b) as int;
    lemma_gcd_positive(a, b);
    if b == 0 {
        lemma_div_multiples_vanish(1, g);
        lemma_div_multiples_vanish(0, g);
        assert(g * 1 == a && g * 0 == 0);
    } else {
        let r = a % b;
        lemma_gcd_divides(b, r);
        lemma_fundamental_div_mod(a as int, b as int);
        let kb = b as int / g;
        let kr = r as int / g;
        let q = a as int / (b as int);
        let k = kb * q + kr;
        assert(g * k == a) by (nonlinear_arith)
            requires
                g * kb == b,
                g * kr == r,
                a == b * q + r,
                k == kb * q + kr,
        ;
        lemma_div_multiples_vanish(k, g);
    }
}

/// `r` names the same number as the fraction `n / d`.
pub open spec fn same_fraction(r: Rational, n: int, d: int) -> bool {
    r.den > 0 && r.num * d == n * r.den
}

/// Reducing a fraction keeps the number it names.
pub proof fn lemma_reduced_value(n: int, d: int)
    requires
        reduced(n, d).den > 0,
    ensures
        d > 0,
        same_fraction(reduced(n, d), n, d),
{
    let g = gcd(magnitude(n), d as nat) as int;
    let qn = magnitude(n) as int / g;
    let qd = d / g;
    lemma_gcd_positive(magnitude(n), d as nat);
    lemma_gcd_divides(magnitude(n), d as nat);
    let r = reduced(n, d);
    if n < 0 {
        assert(r.num * d == n * r.den) by (nonlinear_arith)
            requires
                g * qn == -n,
                g * qd == d,
                r.num == -qn,
                r.den == qd,
        ;
    } else {
        assert(r.num * d == n * r.den) by (nonlinear_arith)
            requires
                g * qn == n,
                g * qd == d,
                r.num == qn,
                r.den == qd,
        ;
    }
}

fn gcd_of(a: u128, b: u128) -> (g: u128)
    ensures
        g == gcd(a as nat, b as nat),
{
    let mut x: u128 = a;
    let mut y: u128 = b;
    while y != 0
        invariant
            gcd(x as nat, y as nat) == gcd(a as nat, b as nat),
        decreases y,
    {
        let t: u128 = x % y;
        x = y;
        y = t;
    }
    x
}

fn reduce(n: i128, d: i128) -> (r: Rational)
    requires
        -0x7fff_ffff_ffff_ffff_ffff_ffff_ffff_ffff <= n,
        0 < d,
    ensures
        r == reduced(n as int, d as int),
{
    let a: u128 = if n < 0 {
        (-n) as u128
    } else {
        n as u128
    };
    let b: u128 = d as u128;
    let g: u128 = gcd_of(a, b);
    proof {
        lemma_gcd_positive(a as nat, b as nat);
    }
    let qn: u128 = a / g;
    let qd: u128 = b / g;
    if qn <= 0x7fff_ffff_ffff_ffff && qd <= 0x7fff_ffff_ffff_ffff {
        let m: i64 = qn as i64;
        Rational {
            num: if n < 0 {
                -m
            } else {
                m
            },
            den: qd as i64,
        }
    } else {
        Rational { num: 0, den: 0 }
    }
}

/// The product of two 64-bit integers has a place in 127 bits.
proof fn lemma_product_bound(a: int, b: int)
    requires
        -0x8000_0000_0000_0000 <= a <= 0x7fff_ffff_ffff_ffff,
        -0x8000_0000_0000_0000 <= b <= 0x7fff_ffff_ffff_ffff,
    ensures
        -0x3fff_ffff_ffff_ffff_8000_0000_0000_0000 <= a * b
            <= 0x4000_0000_0000_0000_0000_0000_0000_0000,
{
    assert(-0x3fff_ffff_ffff_ffff_8000_0000_0000_0000 <= a * b
        <= 0x4000_0000_0000_0000_0000_0000_0000_0000) by (nonlinear_arith)
        requires
            -0x8000_0000_0000_0000 <= a <= 0x7fff_ffff_ffff_ffff,
            -0x8000_0000_0000_0000 <= b <= 0x7fff_ffff_ffff_ffff,
    ;
}

/// The product of a 64-bit integer and a positive one stays clear of the
/// ends of 127 bits.
proof fn lemma_scaled_bound(a: int, d: int)
    requires
        -0x8000_0000_0000_0000 <= a <= 0x7fff_ffff_ffff_ffff,
        0 < d <= 0x7fff_ffff_ffff_ffff,
    ensures
        -0x3fff_ffff_ffff_ffff_8000_0000_0000_0000 <= a * d
            <= 0x3fff_ffff_ffff_ffff_8000_0000_0000_0000,
{
    assert(-0x3fff_ffff_ffff_ffff_8000_0000_0000_0000 <= a * d
        <= 0x3fff_ffff_ffff_ffff_8000_0000_0000_0000) by (nonlinear_arith)
        requires
            -0x8000_0000_0000_0000 <= a <= 0x7fff_ffff_ffff_ffff,
            0 < d <= 0x7fff_ffff_ffff_ffff,
    ;
}

/// The product of two positive 64-bit integers is positive.
proof fn lemma_product_positive(a: int, b: int)
    requires
        0 < a,
        0 < b,
    ensures
        0 < a * b,
{
    assert(0 < a * b) by (nonlinear_arith)
        requires
            0 < a,
            0 < b,
    ;
}

impl Rational {
    /// The fraction `num / den` in lowest terms; the undefined fraction where
    /// `den` is zero.
    pub open spec fn new_spec(num: int, den: int) -> Rational {
        if den < 0 {
            reduced(-num, -den)
        } else {
            reduced(num, den)
        }
    }

    /// The fraction `num / den` in lowest terms.
    pub fn new(num: i64, den: i64) -> (r: Rational)
        ensures
            r == Self::new_spec(num as int, den as int),
    {
        if den == 0 {
            Rational { num: 0, den: 0 }
        } else if den < 0 {
            reduce(-(num as i128), -(den as i128))
        } else {
            reduce(num as i128, den as i128)
        }
    }

    /// Whether the fraction stands for a number.
    pub fn is_defined(&self) -> (b: bool)
        ensures
            b == (self.den > 0),
    {
        self.den > 0
    }
}

impl Scalar for Rational {
    open spec fn from_int_spec(n: int) -> Self {
        if i64::MIN <= n <= i64::MAX {
            Rational { num: n as i64, den: 1 }
        } else {
            undefined()
        }
    }

    open spec fn add_spec(self, rhs: Self) -> Self {
        if self.den <= 0 || rhs.den <= 0 {
            undefined()
        } else {
            reduced(self.num * rhs.den + rhs.num * self.den, self.den * rhs.den)
        }
    }

    open spec fn sub_spec(self, rhs: Self) -> Self {
        if self.den <= 0 || rhs.den <= 0 {
            undefined()
        } else {
            reduced(self.num * rhs.den - rhs.num * self.den, self.den * rhs.den)
        }
    }

    open spec fn mul_spec(self, rhs: Self) -> Self {
        if self.den <= 0 || rhs.den <= 0 {
            undefined()
        } else {
            reduced(self.num * rhs.num, self.den * rhs.den)
        }
    }

    open spec fn recip_spec(self) -> Self {
        if self.den <= 0 || self.num == 0 || self.num == i64::MIN {
            undefined()
        } else if self.num > 0 {
            Rational { num: self.den, den: self.num }
        } else {
            Rational { num: (-self.den) as i64, den: (-self.num) as i64 }
        }
    }

    open spec fn negligible_spec(self) -> bool {
        self.den <= 0 || self.num == 0
    }

    fn from_int(n: i32) -> (r: Self) {
        Rational { num: n as i64, den: 1 }
    }

    fn plus(&self, rhs: &Self) -> (r: Self) {
        if self.den <= 0 || rhs.den <= 0 {
            return Rational { num: 0, den: 0 };
        }
        let a: i128 = self.num as i128;
        let b: i128 = self.den as i128;
        let c: i128 = rhs.num as i128;
        let d: i128 = rhs.den as i128;
        proof {
            lemma_scaled_bound(a as int, d as int);
            lemma_scaled_bound(c as int, b as int);
            lemma_product_bound(b as int, d as int);
            lemma_product_positive(b as int, d as int);
        }
        reduce(a * d + c * b, b * d)
    }

    fn minus(&self, rhs: &Self) -> (r: Self) {
        if self.den <= 0 || rhs.den <= 0 {
            return Rational { num: 0, den: 0 };
        }
        let a: i128 = self.num as i128;
        let b: i128 = self.den as i128;
        let c: i128 = rhs.num as i128;
        let d: i128 = rhs.den as i128;
        proof {
            lemma_scaled_bound(a as int, d as int);
            lemma_scaled_bound(c as int, b as int);
            lemma_product_bound(b as int, d as int);
            lemma_product_positive(b as int, d as int);
        }
        reduce(a * d - c * b, b * d)
    }

    fn times(&self, rhs: &Self) -> (r: Self) {
        if self.den <= 0 || rhs.den <= 0 {
            return Rational { num: 0, den: 0 };
        }
        let a: i128 = self.num as i128;
        let b: i128 = self.den as i128;
        let c: i128 = rhs.num as i128;
        let d: i128 = rhs.den as i128;
        proof {
            lemma_product_bound(a as int, c as int);
            lemma_product_bound(b as int, d as int);
            lemma_product_positive(b as int, d as int);
        }
        reduce(a * c, b * d)
    }

    fn recip(&self) -> (r: Self) {
        if self.den <= 0 || self.num == 0 || self.num == i64::MIN {
            Rational { num: 0, den: 0 }
        } else if self.num > 0 {
            Rational { num: self.den, den: self.num }
        } else {
            Rational { num: -self.den, den: -self.num }
        }
    }

    fn is_negligible(&self) -> (b: bool) {
        self.den <= 0 || self.num == 0
    }
}

/// A sum that is defined is the sum of the two fractions.
pub proof fn lemma_sum_is_exact(a: Rational, b: Rational)
    requires
        a.add_spec(b).den > 0,
    ensures
        a.den > 0,
        b.den > 0,
        same_fraction(a.add_spec(b), a.num * b.den + b.num * a.den, a.den * b.den),
{
    lemma_reduced_value(a.num * b.den + b.num * a.den, a.den * b.den);
}

/// A difference that is defined is the difference of the two fractions.
pub proof fn lemma_difference_is_exact(a: Rational, b: Rational)
    requires
        a.sub_spec(b).den > 0,
    ensures
        a.den > 0,
        b.den > 0,
        same_fraction(a.sub_spec(b), a.num * b.den - b.num * a.den, a.den * b.den),
{
    lemma_reduced_value(a.num * b.den - b.num * a.den, a.den * b.den);
}

/// A product that is defined is the product of the two fractions.
pub proof fn lemma_product_is_exact(a: Rational, b: Rational)
    requires
        a.mul_spec(b).den > 0,
    ensures
        a.den > 0,
        b.den > 0,
        same_fraction(a.mul_spec(b), a.num * b.num, a.den * b.den),
{
    lemma_reduced_value(a.num * b.num, a.den * b.den);
}

/// A reciprocal that is defined is the fraction turned over.
pub proof fn lemma_reciprocal_is_exact(a: Rational)
    requires
        a.recip_spec().den > 0,
    ensures
        a.den > 0,
        a.num != 0,
        same_fraction(a.recip_spec(), a.den as int, a.num as int),
{
    let r = a.recip_spec();
    if a.num > 0 {
        assert(r.num * a.num == a.den * r.den);
    } else {
        assert(r.num * a.num == a.den * r.den) by (nonlinear_arith)
            requires
                r.num == -a.den,
                r.den == -a.num,
        ;
    }
}

/// A fraction made of two integers, where it is defined, is that fraction.
pub proof fn lemma_new_is_exact(num: int, den: int)
    requires
        Rational::new_spec(num, den).den > 0,
    ensures
        den != 0,
        same_fraction(Rational::new_spec(num, den), num, den),
{
    let r = Rational::new_spec(num, den);
    if den < 0 {
        lemma_reduced_value(-num, -den);
        assert(r.num * den == num * r.den) by (nonlinear_arith)
            requires
                r.num * (-den) == (-num) * r.den,
        ;
    } else {
        lemma_reduced_value(num, den);
    }
}

} // verus!
