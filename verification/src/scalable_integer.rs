//! An exact integer that widens across three precision tiers — `i64`,
//! `i128`, arbitrary precision — to avoid overflow, while eagerly demoting
//! results back to the cheapest tier that holds them.

use vstd::prelude::*;
use num::BigInt;
use crate::bigint::{
    big_value, big_from_i128, big_from_u128, big_to_i128, big_add, big_mul, big_neg, big_div,
    big_eq, big_lt, big_gcd, big_is_even,
};
use crate::gcd::{gcd_nat, abs_int, int_gcd, int_lcm, trunc_div, trunc_rem, floor_div, floor_rem, gcd_u128};

verus! {

/// A tagged integer stored in the smallest of three width tiers that can
/// represent it exactly.
#[derive(Debug, Clone, PartialEq, Eq)]
pub enum ScalableInteger {
    Single(i64),
    Double(i128),
    Big(BigInt),
}

impl View for ScalableInteger {
    type V = int;

    open spec fn view(&self) -> int {
        match self {
            ScalableInteger::Single(n) => *n as int,
            ScalableInteger::Double(n) => *n as int,
            ScalableInteger::Big(b) => big_value(*b),
        }
    }
}

impl ScalableInteger {
    /// A value always sits in the smallest tier that can hold it exactly.
    pub open spec fn inv(&self) -> bool {
        match self {
            ScalableInteger::Single(_) => true,
            ScalableInteger::Double(n) => *n < i64::MIN as i128 || *n > i64::MAX as i128,
            ScalableInteger::Big(b) => big_value(*b) < i128::MIN || big_value(*b) > i128::MAX,
        }
    }

    /// The canonical representation of an `i128` value.
    pub fn from_i128(v: i128) -> (r: Self)
        ensures
            r@ == v,
            r.inv(),
    {
        if i64::MIN as i128 <= v && v <= i64::MAX as i128 {
            ScalableInteger::Single(v as i64)
        } else {
            ScalableInteger::Double(v)
        }
    }

    pub fn from_i64(v: i64) -> (r: Self)
        ensures
            r@ == v,
            r.inv(),
    {
        ScalableInteger::Single(v)
    }

    pub fn from_u64(v: u64) -> (r: Self)
        ensures
            r@ == v,
            r.inv(),
    {
        Self::from_i128(v as i128)
    }

    pub fn from_u128(v: u128) -> (r: Self)
        ensures
            r@ == v,
            r.inv(),
    {
        if v <= i128::MAX as u128 {
            Self::from_i128(v as i128)
        } else {
            ScalableInteger::Big(big_from_u128(v))
        }
    }

    /// The canonical representation of the integer stored in `b`.
    pub fn from_bigint(b: BigInt) -> (r: Self)
        ensures
            r@ == big_value(b),
            r.inv(),
    {
        match big_to_i128(&b) {
            Some(v) => Self::from_i128(v),
            None => ScalableInteger::Big(b),
        }
    }

    /// An arbitrary-precision copy of the value, whatever its tier.
    fn to_bigint(&self) -> (r: BigInt)
        ensures
            big_value(r) == self@,
    {
        match self {
            ScalableInteger::Single(n) => big_from_i128(*n as i128),
            ScalableInteger::Double(n) => big_from_i128(*n),
            ScalableInteger::Big(b) => b.clone(),
        }
    }

    /// An exact copy.
    pub fn dup(&self) -> (r: Self)
        ensures
            r@ == self@,
            self.inv() ==> r.inv(),
    {
        match self {
            ScalableInteger::Single(n) => ScalableInteger::Single(*n),
            ScalableInteger::Double(n) => ScalableInteger::Double(*n),
            ScalableInteger::Big(b) => ScalableInteger::Big(b.clone()),
        }
    }

    pub fn zero() -> (r: Self)
        ensures
            r@ == 0,
            r.inv(),
    {
        ScalableInteger::Single(0)
    }

    pub fn one() -> (r: Self)
        ensures
            r@ == 1,
            r.inv(),
    {
        ScalableInteger::Single(1)
    }

    pub fn is_zero(&self) -> (r: bool)
        requires
            self.inv(),
        ensures
            r == (self@ == 0),
    {
        match self {
            ScalableInteger::Single(n) => *n == 0,
            ScalableInteger::Double(_) => false,
            ScalableInteger::Big(_) => false,
        }
    }

    pub fn is_negative(&self) -> (r: bool)
        ensures
            r == (self@ < 0),
    {
        match self {
            ScalableInteger::Single(n) => *n < 0,
            ScalableInteger::Double(n) => *n < 0,
            ScalableInteger::Big(b) => big_lt(b, &big_from_i128(0)),
        }
    }

    pub fn is_even(&self) -> (r: bool)
        ensures
            r == (self@ % 2 == 0),
    {
        match self {
            ScalableInteger::Single(n) => n % 2 == 0,
            ScalableInteger::Double(n) => n % 2 == 0,
            ScalableInteger::Big(b) => big_is_even(b),
        }
    }

    pub fn is_odd(&self) -> (r: bool)
        ensures
            r == (self@ % 2 != 0),
    {
        !self.is_even()
    }

    /// Value equality; with canonical tiers it coincides with tier-aligned
    /// structural comparison.
    pub fn eq_value(&self, other: &Self) -> (r: bool)
        requires
            self.inv(),
            other.inv(),
        ensures
            r == (self@ == other@),
    {
        match (self, other) {
            (ScalableInteger::Single(a), ScalableInteger::Single(b)) => a == b,
            (ScalableInteger::Double(a), ScalableInteger::Double(b)) => a == b,
            (ScalableInteger::Big(a), ScalableInteger::Big(b)) => big_eq(a, b),
            _ => false,
        }
    }

    /// Value ordering, defined as if both operands were first aligned to
    /// one tier.
    pub fn lt(&self, other: &Self) -> (r: bool)
        requires
            self.inv(),
            other.inv(),
        ensures
            r == (self@ < other@),
    {
        match (self, other) {
            (ScalableInteger::Big(a), ScalableInteger::Big(b)) => big_lt(a, b),
            (ScalableInteger::Big(a), _) => big_lt(a, &big_from_i128(other.as_i128())),
            (_, ScalableInteger::Big(b)) => big_lt(&big_from_i128(self.as_i128()), b),
            _ => self.as_i128() < other.as_i128(),
        }
    }

    pub fn neg(&self) -> (r: Self)
        ensures
            r@ == -self@,
            r.inv(),
    {
        match self {
            ScalableInteger::Single(n) => {
                if *n == i64::MIN {
                    Self::from_i128(-(*n as i128))
                } else {
                    ScalableInteger::Single(-*n)
                }
            }
            ScalableInteger::Double(n) => {
                if *n == i128::MIN {
                    Self::from_bigint(big_neg(&big_from_i128(*n)))
                } else {
                    Self::from_i128(-*n)
                }
            }
            ScalableInteger::Big(b) => Self::from_bigint(big_neg(b)),
        }
    }

    /// Addition at the widest of the two tiers, promoting on overflow and
    /// demoting the result: exact for every pair of inputs.
    pub fn add(&self, rhs: &Self) -> (r: Self)
        requires
            self.inv(),
            rhs.inv(),
        ensures
            r@ == self@ + rhs@,
            r.inv(),
    {
        match (self, rhs) {
            (ScalableInteger::Single(a), ScalableInteger::Single(b)) => {
                match a.checked_add(*b) {
                    Some(s) => ScalableInteger::Single(s),
                    None => Self::from_i128(*a as i128 + *b as i128),
                }
            }
            (ScalableInteger::Big(_), _) | (_, ScalableInteger::Big(_)) => {
                Self::from_bigint(big_add(&self.to_bigint(), &rhs.to_bigint()))
            }
            _ => {
                let a = self.as_i128();
                let b = rhs.as_i128();
                match a.checked_add(b) {
                    Some(s) => Self::from_i128(s),
                    None => Self::from_bigint(big_add(&big_from_i128(a), &big_from_i128(b))),
                }
            }
        }
    }

    pub fn sub(&self, rhs: &Self) -> (r: Self)
        requires
            self.inv(),
            rhs.inv(),
        ensures
            r@ == self@ - rhs@,
            r.inv(),
    {
        self.add(&rhs.neg())
    }

    /// Multiplication with the same promote-on-overflow scheme as `add`.
    pub fn mul(&self, rhs: &Self) -> (r: Self)
        requires
            self.inv(),
            rhs.inv(),
        ensures
            r@ == self@ * rhs@,
            r.inv(),
    {
        match (self, rhs) {
            (ScalableInteger::Single(a), ScalableInteger::Single(b)) => {
                match a.checked_mul(*b) {
                    Some(s) => ScalableInteger::Single(s),
                    None => {
                        let wa = *a as i128;
                        let wb = *b as i128;
                        proof {
                            assert(i128::MIN <= wa * wb <= i128::MAX) by (nonlinear_arith)
                                requires
                                    -0x8000_0000_0000_0000i128 <= wa <= 0x7FFF_FFFF_FFFF_FFFFi128,
                                    -0x8000_0000_0000_0000i128 <= wb <= 0x7FFF_FFFF_FFFF_FFFFi128,
                            ;
                        }
                        Self::from_i128(wa * wb)
                    }
                }
            }
            (ScalableInteger::Big(_), _) | (_, ScalableInteger::Big(_)) => {
                Self::from_bigint(big_mul(&self.to_bigint(), &rhs.to_bigint()))
            }
            _ => {
                let a = self.as_i128();
                let b = rhs.as_i128();
                match a.checked_mul(b) {
                    Some(s) => Self::from_i128(s),
                    None => Self::from_bigint(big_mul(&big_from_i128(a), &big_from_i128(b))),
                }
            }
        }
    }

    /// Truncating integer division; division by zero is excluded.
    pub fn div(&self, rhs: &Self) -> (r: Self)
        requires
            self.inv(),
            rhs.inv(),
            rhs@ != 0,
        ensures
            r@ == trunc_div(self@, rhs@),
            r.inv(),
    {
        match (self, rhs) {
            (ScalableInteger::Big(_), _) | (_, ScalableInteger::Big(_)) => {
                Self::from_bigint(big_div(&self.to_bigint(), &rhs.to_bigint()))
            }
            _ => {
                let a = self.as_i128();
                let b = rhs.as_i128();
                match a.checked_div(b) {
                    Some(q) => Self::from_i128(q),
                    None => Self::from_bigint(big_div(&big_from_i128(a), &big_from_i128(b))),
                }
            }
        }
    }

    /// The non-negative greatest common divisor of the two values.
    pub fn gcd(&self, other: &Self) -> (r: Self)
        requires
            self.inv(),
            other.inv(),
        ensures
            r@ == int_gcd(self@, other@),
            r.inv(),
    {
        match (self, other) {
            (ScalableInteger::Big(_), _) | (_, ScalableInteger::Big(_)) => {
                Self::from_bigint(big_gcd(&self.to_bigint(), &other.to_bigint()))
            }
            _ => {
                let a = Self::abs_u128(self.as_i128());
                let b = Self::abs_u128(other.as_i128());
                Self::from_u128(gcd_u128(a, b))
            }
        }
    }

    /// In-place addition: the compound-assignment form of `add`.
    pub fn add_assign(&mut self, rhs: &Self)
        requires
            old(self).inv(),
            rhs.inv(),
        ensures
            final(self)@ == old(self)@ + rhs@,
            final(self).inv(),
    {
        let r = self.add(rhs);
        *self = r;
    }

    /// In-place subtraction: the compound-assignment form of `sub`.
    pub fn sub_assign(&mut self, rhs: &Self)
        requires
            old(self).inv(),
            rhs.inv(),
        ensures
            final(self)@ == old(self)@ - rhs@,
            final(self).inv(),
    {
        let r = self.sub(rhs);
        *self = r;
    }

    /// In-place multiplication: the compound-assignment form of `mul`.
    pub fn mul_assign(&mut self, rhs: &Self)
        requires
            old(self).inv(),
            rhs.inv(),
        ensures
            final(self)@ == old(self)@ * rhs@,
            final(self).inv(),
    {
        let r = self.mul(rhs);
        *self = r;
    }

    /// In-place division: the compound-assignment form of `div`.
    pub fn div_assign(&mut self, rhs: &Self)
        requires
            old(self).inv(),
            rhs.inv(),
            rhs@ != 0,
        ensures
            final(self)@ == trunc_div(old(self)@, rhs@),
            final(self).inv(),
    {
        let r = self.div(rhs);
        *self = r;
    }

    /// In-place remainder: the compound-assignment form of `rem`.
    pub fn rem_assign(&mut self, rhs: &Self)
        requires
            old(self).inv(),
            rhs.inv(),
            rhs@ != 0,
        ensures
            final(self)@ == trunc_rem(old(self)@, rhs@),
            final(self).inv(),
    {
        let r = self.rem(rhs);
        *self = r;
    }

    /// The absolute value.
    pub fn abs(&self) -> (r: Self)
        requires
            self.inv(),
        ensures
            r@ == abs_int(self@),
            r.inv(),
    {
        if self.is_negative() {
            self.neg()
        } else {
            self.dup()
        }
    }

    /// Truncating remainder, the leftover of `div`; the divisor must be
    /// nonzero.
    pub fn rem(&self, rhs: &Self) -> (r: Self)
        requires
            self.inv(),
            rhs.inv(),
            rhs@ != 0,
        ensures
            r@ == trunc_rem(self@, rhs@),
            r.inv(),
    {
        let q = self.div(rhs);
        self.sub(&rhs.mul(&q))
    }

    /// Flooring division, which rounds toward negative infinity.
    pub fn div_floor(&self, other: &Self) -> (r: Self)
        requires
            self.inv(),
            other.inv(),
            other@ != 0,
        ensures
            r@ == floor_div(self@, other@),
            r.inv(),
    {
        let q = self.div(other);
        let rem = self.sub(&other.mul(&q));
        if !rem.is_zero() && (self.is_negative() != other.is_negative()) {
            q.sub(&Self::one())
        } else {
            q
        }
    }

    /// Flooring remainder, which takes the sign of the divisor.
    pub fn mod_floor(&self, other: &Self) -> (r: Self)
        requires
            self.inv(),
            other.inv(),
            other@ != 0,
        ensures
            r@ == floor_rem(self@, other@),
            r.inv(),
    {
        self.sub(&other.mul(&self.div_floor(other)))
    }

    /// Truncating division and remainder together.
    pub fn div_rem(&self, other: &Self) -> (r: (Self, Self))
        requires
            self.inv(),
            other.inv(),
            other@ != 0,
        ensures
            r.0@ == trunc_div(self@, other@),
            r.1@ == trunc_rem(self@, other@),
            r.0.inv(),
            r.1.inv(),
    {
        (self.div(other), self.rem(other))
    }

    /// Whether `other` divides the value exactly.
    pub fn is_multiple_of(&self, other: &Self) -> (r: bool)
        requires
            self.inv(),
            other.inv(),
        ensures
            r == crate::gcd::divides(other@, self@),
    {
        if other.is_zero() {
            let r = self.is_zero();
            proof {
                if self@ == 0 {
                    assert(self@ == 0int * 0);
                }
                if crate::gcd::divides(0int, self@) {
                    let k = choose|k: int| self@ == #[trigger] (0int * k);
                }
            }
            r
        } else {
            let r = self.rem(other).is_zero();
            proof {
                crate::gcd::lemma_divides_iff_rem_zero(self@, other@);
            }
            r
        }
    }

    /// The non-negative least common multiple.
    pub fn lcm(&self, other: &Self) -> (r: Self)
        requires
            self.inv(),
            other.inv(),
        ensures
            r@ == int_lcm(self@, other@),
            r.inv(),
    {
        if self.is_zero() || other.is_zero() {
            Self::zero()
        } else {
            let g = self.gcd(other);
            proof {
                crate::gcd::lemma_gcd_nat_zero(abs_int(self@) as nat, abs_int(other@) as nat);
            }
            let t = other.div(&g);
            self.mul(&t).abs()
        }
    }

    /// The value, which fits an `i128` because the tier is not `Big`.
    fn as_i128(&self) -> (r: i128)
        requires
            !(self is Big),
        ensures
            r == self@,
    {
        match self {
            ScalableInteger::Single(n) => *n as i128,
            ScalableInteger::Double(n) => *n,
            ScalableInteger::Big(_) => 0,
        }
    }

    /// The absolute value of an `i128`, exact even for the minimum.
    fn abs_u128(v: i128) -> (r: u128)
        ensures
            r == abs_int(v as int),
    {
        if v >= 0 {
            v as u128
        } else {
            (-(v + 1)) as u128 + 1
        }
    }
}

} // verus!
