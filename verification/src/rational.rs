//! Exact fractions of [`ScalableInteger`] values, with the cross-multiplying
//! arithmetic of classical fraction algebra. Construction comes in two
//! modes: `new` reduces to lowest terms with a positive denominator, while
//! `new_raw` stores the fraction as given; arithmetic reduces its results.

use vstd::prelude::*;
use crate::scalable_integer::ScalableInteger;
use crate::gcd::{
    abs_int, int_gcd, int_lcm, trunc_div, lemma_int_gcd, lemma_int_lcm_nonzero,
    lemma_trunc_div_exact,
};

verus! {

/// What reduction to lowest terms (with a positive denominator) does to a
/// fraction `n / d` with `d != 0`.
pub open spec fn rat_reduce(n: int, d: int) -> (int, int) {
    if n == 0 {
        (0int, 1int)
    } else if n == d {
        (1int, 1int)
    } else {
        let g = int_gcd(n, d);
        let n2 = trunc_div(n, g);
        let d2 = trunc_div(d, g);
        if d2 < 0 {
            (-n2, -d2)
        } else {
            (n2, d2)
        }
    }
}

/// The sum `an/ad + bn/bd`, over the least common denominator, reduced.
pub open spec fn rat_add(an: int, ad: int, bn: int, bd: int) -> (int, int) {
    if ad == bd {
        rat_reduce(an + bn, bd)
    } else {
        let l = int_lcm(ad, bd);
        rat_reduce(an * trunc_div(l, ad) + bn * trunc_div(l, bd), l)
    }
}

/// The difference `an/ad - bn/bd`, over the least common denominator,
/// reduced.
pub open spec fn rat_sub(an: int, ad: int, bn: int, bd: int) -> (int, int) {
    if ad == bd {
        rat_reduce(an - bn, bd)
    } else {
        let l = int_lcm(ad, bd);
        rat_reduce(an * trunc_div(l, ad) - bn * trunc_div(l, bd), l)
    }
}

/// The product `(an/ad) * (bn/bd)` with cross-cancellation, reduced.
pub open spec fn rat_mul(an: int, ad: int, bn: int, bd: int) -> (int, int) {
    let g1 = int_gcd(an, bd);
    let g2 = int_gcd(ad, bn);
    rat_reduce(trunc_div(an, g1) * trunc_div(bn, g2), trunc_div(ad, g2) * trunc_div(bd, g1))
}

/// The quotient `(an/ad) / (bn/bd)` with cross-cancellation, reduced.
pub open spec fn rat_div(an: int, ad: int, bn: int, bd: int) -> (int, int) {
    let g1 = int_gcd(an, bn);
    let g2 = int_gcd(ad, bd);
    rat_reduce(trunc_div(an, g1) * trunc_div(bd, g2), trunc_div(ad, g2) * trunc_div(bn, g1))
}

/// Two fractions denote the same rational number.
pub open spec fn rat_eq(an: int, ad: int, bn: int, bd: int) -> bool {
    an * bd == bn * ad
}

/// An exact fraction of two [`ScalableInteger`] values.
#[derive(Debug, Clone, PartialEq, Eq)]
pub struct BigRational {
    pub numer: ScalableInteger,
    pub denom: ScalableInteger,
}

impl BigRational {
    /// Both parts canonically tiered and the denominator nonzero.
    pub open spec fn wf(&self) -> bool {
        &&& self.numer.inv()
        &&& self.denom.inv()
        &&& self.denom@ != 0
    }

    /// The pair of integers stored, numerator first.
    pub open spec fn pair(&self) -> (int, int) {
        (self.numer@, self.denom@)
    }

    /// Stores the fraction exactly as given, without reducing and without
    /// checking the denominator.
    pub fn new_raw(numer: ScalableInteger, denom: ScalableInteger) -> (r: Self)
        ensures
            r.numer == numer,
            r.denom == denom,
    {
        BigRational { numer, denom }
    }

    /// Reduces `numer / denom` to lowest terms with a positive denominator.
    pub fn new(numer: ScalableInteger, denom: ScalableInteger) -> (r: Self)
        requires
            numer.inv(),
            denom.inv(),
            denom@ != 0,
        ensures
            r.wf(),
            r.pair() == rat_reduce(numer@, denom@),
    {
        if numer.is_zero() {
            BigRational { numer, denom: ScalableInteger::one() }
        } else if numer.eq_value(&denom) {
            BigRational { numer: ScalableInteger::one(), denom: ScalableInteger::one() }
        } else {
            let g = numer.gcd(&denom);
            proof {
                lemma_int_gcd(numer@, denom@);
                lemma_trunc_div_exact(denom@, int_gcd(numer@, denom@));
            }
            let n2 = numer.div(&g);
            let d2 = denom.div(&g);
            if d2.is_negative() {
                BigRational { numer: n2.neg(), denom: d2.neg() }
            } else {
                BigRational { numer: n2, denom: d2 }
            }
        }
    }

    /// The whole number `t` as a fraction over one.
    pub fn from_integer(t: ScalableInteger) -> (r: Self)
        ensures
            r.numer == t,
            r.denom@ == 1,
            r.denom.inv(),
    {
        BigRational { numer: t, denom: ScalableInteger::one() }
    }

    pub fn from_i64(v: i64) -> (r: Self)
        ensures
            r.wf(),
            r.pair() == (v as int, 1int),
    {
        BigRational { numer: ScalableInteger::from_i64(v), denom: ScalableInteger::one() }
    }

    pub fn from_i128_pair(n: i128, d: i128) -> (r: Self)
        requires
            d != 0,
        ensures
            r.wf(),
            r.pair() == rat_reduce(n as int, d as int),
    {
        Self::new(ScalableInteger::from_i128(n), ScalableInteger::from_i128(d))
    }

    pub fn zero() -> (r: Self)
        ensures
            r.wf(),
            r.pair() == (0int, 1int),
    {
        BigRational { numer: ScalableInteger::zero(), denom: ScalableInteger::one() }
    }

    pub fn one() -> (r: Self)
        ensures
            r.wf(),
            r.pair() == (1int, 1int),
    {
        BigRational { numer: ScalableInteger::one(), denom: ScalableInteger::one() }
    }

    /// An exact copy.
    pub fn dup(&self) -> (r: Self)
        ensures
            r.pair() == self.pair(),
            self.wf() ==> r.wf(),
            self.numer.inv() ==> r.numer.inv(),
            self.denom.inv() ==> r.denom.inv(),
    {
        BigRational { numer: self.numer.dup(), denom: self.denom.dup() }
    }

    /// A reduced copy of the fraction.
    pub fn reduced(&self) -> (r: Self)
        requires
            self.wf(),
        ensures
            r.wf(),
            r.pair() == rat_reduce(self.numer@, self.denom@),
    {
        Self::new(self.numer.dup(), self.denom.dup())
    }

    pub fn is_zero(&self) -> (r: bool)
        requires
            self.numer.inv(),
        ensures
            r == (self.numer@ == 0),
    {
        self.numer.is_zero()
    }

    /// Whether the two fractions denote the same rational number, whatever
    /// their representations.
    pub fn eq_value(&self, other: &Self) -> (r: bool)
        requires
            self.wf(),
            other.wf(),
        ensures
            r == rat_eq(self.numer@, self.denom@, other.numer@, other.denom@),
    {
        self.numer.mul(&other.denom).eq_value(&other.numer.mul(&self.denom))
    }

    pub fn neg(&self) -> (r: Self)
        ensures
            r.pair() == (-self.numer@, self.denom@),
            self.wf() ==> r.wf(),
            self.numer.inv() ==> r.numer.inv(),
            self.denom.inv() ==> r.denom.inv(),
    {
        BigRational { numer: self.numer.neg(), denom: self.denom.dup() }
    }

    pub fn add(&self, other: &Self) -> (r: Self)
        requires
            self.wf(),
            other.wf(),
        ensures
            r.wf(),
            r.pair() == rat_add(self.numer@, self.denom@, other.numer@, other.denom@),
    {
        if self.denom.eq_value(&other.denom) {
            Self::new(self.numer.add(&other.numer), other.denom.dup())
        } else {
            let l = self.denom.lcm(&other.denom);
            proof {
                lemma_int_lcm_nonzero(self.denom@, other.denom@);
            }
            let ln = self.numer.mul(&l.div(&self.denom));
            let rn = other.numer.mul(&l.div(&other.denom));
            Self::new(ln.add(&rn), l)
        }
    }

    pub fn sub(&self, other: &Self) -> (r: Self)
        requires
            self.wf(),
            other.wf(),
        ensures
            r.wf(),
            r.pair() == rat_sub(self.numer@, self.denom@, other.numer@, other.denom@),
    {
        if self.denom.eq_value(&other.denom) {
            Self::new(self.numer.sub(&other.numer), other.denom.dup())
        } else {
            let l = self.denom.lcm(&other.denom);
            proof {
                lemma_int_lcm_nonzero(self.denom@, other.denom@);
            }
            let ln = self.numer.mul(&l.div(&self.denom));
            let rn = other.numer.mul(&l.div(&other.denom));
            Self::new(ln.sub(&rn), l)
        }
    }

    pub fn mul(&self, other: &Self) -> (r: Self)
        requires
            self.wf(),
            other.wf(),
        ensures
            r.wf(),
            r.pair() == rat_mul(self.numer@, self.denom@, other.numer@, other.denom@),
    {
        let g1 = self.numer.gcd(&other.denom);
        let g2 = self.denom.gcd(&other.numer);
        proof {
            lemma_int_gcd(self.numer@, other.denom@);
            lemma_int_gcd(self.denom@, other.numer@);
            lemma_trunc_div_exact(self.denom@, int_gcd(self.denom@, other.numer@));
            lemma_trunc_div_exact(other.denom@, int_gcd(self.numer@, other.denom@));
            assert(trunc_div(self.denom@, int_gcd(self.denom@, other.numer@)) * trunc_div(
                other.denom@,
                int_gcd(self.numer@, other.denom@),
            ) != 0) by (nonlinear_arith)
                requires
                    trunc_div(self.denom@, int_gcd(self.denom@, other.numer@)) != 0,
                    trunc_div(other.denom@, int_gcd(self.numer@, other.denom@)) != 0,
            ;
        }
        let n = self.numer.div(&g1).mul(&other.numer.div(&g2));
        let d = self.denom.div(&g2).mul(&other.denom.div(&g1));
        Self::new(n, d)
    }

    /// Division by a fraction denoting zero is excluded.
    pub fn div(&self, other: &Self) -> (r: Self)
        requires
            self.wf(),
            other.wf(),
            other.numer@ != 0,
        ensures
            r.wf(),
            r.pair() == rat_div(self.numer@, self.denom@, other.numer@, other.denom@),
    {
        let g1 = self.numer.gcd(&other.numer);
        let g2 = self.denom.gcd(&other.denom);
        proof {
            lemma_int_gcd(self.numer@, other.numer@);
            lemma_int_gcd(self.denom@, other.denom@);
            lemma_trunc_div_exact(self.denom@, int_gcd(self.denom@, other.denom@));
            lemma_trunc_div_exact(other.numer@, int_gcd(self.numer@, other.numer@));
            assert(trunc_div(self.denom@, int_gcd(self.denom@, other.denom@)) * trunc_div(
                other.numer@,
                int_gcd(self.numer@, other.numer@),
            ) != 0) by (nonlinear_arith)
                requires
                    trunc_div(self.denom@, int_gcd(self.denom@, other.denom@)) != 0,
                    trunc_div(other.numer@, int_gcd(self.numer@, other.numer@)) != 0,
            ;
        }
        let n = self.numer.div(&g1).mul(&other.denom.div(&g2));
        let d = self.denom.div(&g2).mul(&other.numer.div(&g1));
        Self::new(n, d)
    }
}

} // verus!
