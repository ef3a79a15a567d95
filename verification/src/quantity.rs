//! An exact magnitude paired with a unit of measurement: arithmetic that
//! checks units, conversion between compatible units, and stripping of
//! scale prefixes into the magnitude.

use vstd::prelude::*;
use crate::rational::{BigRational, rat_add, rat_sub, rat_mul, rat_div};
use crate::scalable_integer::ScalableInteger;
use crate::unit::{
    Unit, unitless_spec, unit_num, unit_den, all_atomic, flat_num, flat_den, cancel, is_collapsed,
    is_flat, mul_pair, div_pair,
};
use crate::catalog::{
    atom_of, atom_slope, unit_is_modifier, si_offset, si_slope, canon_num, canon_den,
    lemma_all_atomic_flat,
};

verus! {

/// Conversion between units whose canonical SI expressions differ.
#[derive(Debug, PartialEq, Eq)]
pub struct ConversionError;

/// Two units are interchangeable exactly when their canonical SI
/// expressions are structurally equal.
pub open spec fn convertible(a: Unit, b: Unit) -> bool {
    canon_num(a) == canon_num(b) && canon_den(a) == canon_den(b)
}

/// The magnitude that `m` becomes when a quantity moves from unit `from`
/// to unit `to`: the affine inverse composition
/// `((m + offset) * slope / slope_to) - offset_to`.
pub open spec fn convert_mag(m: (int, int), from: Unit, to: Unit) -> (int, int) {
    let o1 = si_offset(from);
    let s1 = si_slope(from);
    let o2 = si_offset(to);
    let s2 = si_slope(to);
    let m1 = rat_add(m.0, m.1, o1.0, o1.1);
    let m2 = rat_mul(m1.0, m1.1, s1.0, s1.1);
    let m3 = rat_div(m2.0, m2.1, s2.0, s2.1);
    rat_sub(m3.0, m3.1, o2.0, o2.1)
}

/// The magnitude of a quantity rewritten in canonical SI units:
/// `(m + offset) * slope`.
pub open spec fn si_mag(m: (int, int), u: Unit) -> (int, int) {
    let o = si_offset(u);
    let s = si_slope(u);
    let m1 = rat_add(m.0, m.1, o.0, o.1);
    rat_mul(m1.0, m1.1, s.0, s.1)
}

/// The magnitude after the scale prefixes of one flattened member list are
/// folded in: a prefix in the numerator multiplies, one in the denominator
/// divides.
pub open spec fn strip_mag(s: Seq<Unit>, invert: bool, acc: (int, int)) -> (int, int)
    decreases s.len(),
{
    if s.len() == 0 {
        acc
    } else {
        let a2 = if unit_is_modifier(s[0]) {
            let sl = atom_slope(atom_of(s[0]));
            if invert {
                rat_div(acc.0, acc.1, sl.0, sl.1)
            } else {
                rat_mul(acc.0, acc.1, sl.0, sl.1)
            }
        } else {
            acc
        };
        strip_mag(s.drop_first(), invert, a2)
    }
}

/// A flattened member list with its scale prefixes removed.
pub open spec fn strip_units(s: Seq<Unit>) -> Seq<Unit>
    decreases s.len(),
{
    if s.len() == 0 {
        Seq::empty()
    } else {
        let rest = strip_units(s.drop_first());
        if unit_is_modifier(s[0]) {
            rest
        } else {
            seq![s[0]] + rest
        }
    }
}

/// An arbitrary-precision magnitude with a unit. Any magnitude may pair
/// with any unit; operations produce new values.
#[derive(Debug, PartialEq, Eq)]
pub struct Quantity {
    pub magnitude: BigRational,
    pub unit: Unit,
}

impl Quantity {
    /// The magnitude is a well-formed fraction.
    pub open spec fn wf(&self) -> bool {
        self.magnitude.wf()
    }

    pub fn new(magnitude: BigRational, unit: Unit) -> (r: Self)
        ensures
            r.magnitude == magnitude,
            r.unit == unit,
    {
        Quantity { magnitude, unit }
    }

    /// A dimensionless quantity.
    pub fn from_rational(ratio: BigRational) -> (r: Self)
        ensures
            r.magnitude == ratio,
            unitless_spec(r.unit),
    {
        Quantity { magnitude: ratio, unit: Unit::unitless() }
    }

    pub fn from_rational_with_unit(ratio: BigRational, unit: Unit) -> (r: Self)
        ensures
            r.magnitude == ratio,
            r.unit == unit,
    {
        Quantity { magnitude: ratio, unit }
    }

    pub fn from_i64(value: i64) -> (r: Self)
        ensures
            r.wf(),
            r.magnitude.pair() == (value as int, 1int),
            unitless_spec(r.unit),
    {
        Quantity { magnitude: BigRational::from_i64(value), unit: Unit::unitless() }
    }

    pub fn from_i64_with_unit(value: i64, unit: Unit) -> (r: Self)
        ensures
            r.wf(),
            r.magnitude.pair() == (value as int, 1int),
            r.unit == unit,
    {
        Quantity { magnitude: BigRational::from_i64(value), unit }
    }

    /// A quantity of magnitude one in the given unit.
    pub fn from_unit(unit: Unit) -> (r: Self)
        ensures
            r.wf(),
            r.magnitude.pair() == (1int, 1int),
            r.unit == unit,
    {
        Quantity { magnitude: BigRational::one(), unit }
    }

    pub fn is_unitless(&self) -> (r: bool)
        ensures
            r == unitless_spec(self.unit),
    {
        self.unit.is_unitless()
    }

    /// The quantity rewritten in canonical SI base units, with the affine
    /// conversion `(magnitude + offset) * slope` applied.
    pub fn to_si_units(self) -> (r: Self)
        requires
            self.wf(),
        ensures
            r.wf(),
            r.magnitude.pair() == si_mag(self.magnitude.pair(), self.unit),
            unit_num(r.unit) == canon_num(self.unit),
            unit_den(r.unit) == canon_den(self.unit),
            is_collapsed(r.unit),
            is_flat(r.unit),
    {
        let (offset, slope, unit) = self.unit.to_si_units();
        let m1 = self.magnitude.add(&offset);
        let magnitude = m1.mul(&slope);
        Quantity { magnitude, unit }
    }

    /// Converts to an arbitrary unit; fails exactly when the canonical SI
    /// expressions of the two units differ.
    pub fn convert_to(self, to: Unit) -> (r: Result<Self, ConversionError>)
        requires
            self.wf(),
        ensures
            match r {
                Ok(q) => {
                    &&& convertible(self.unit, to)
                    &&& q.unit == to
                    &&& q.wf()
                    &&& q.magnitude.pair() == convert_mag(self.magnitude.pair(), self.unit, to)
                },
                Err(_) => !convertible(self.unit, to),
            },
    {
        let (offset, slope, si_unit) = self.unit.to_si_units();
        let (offset_to, slope_to, si_unit_to) = to.to_si_units();
        if !Self::flat_unit_eq(&si_unit, &si_unit_to) {
            return Err(ConversionError);
        }
        let m1 = self.magnitude.add(&offset);
        let m2 = m1.mul(&slope);
        let m3 = m2.div(&slope_to);
        let magnitude = m3.sub(&offset_to);
        Ok(Quantity { magnitude, unit: to })
    }

    /// Removes every decimal and binary scale prefix from the unit and
    /// multiplies (numerator side) or divides (denominator side) the
    /// magnitude by its slope instead.
    pub fn apply_modifiers(self) -> (r: Self)
        requires
            self.wf(),
        ensures
            r.wf(),
            r.magnitude.pair() == strip_mag(
                flat_den(self.unit),
                true,
                strip_mag(flat_num(self.unit), false, self.magnitude.pair()),
            ),
            unit_num(r.unit) == cancel(
                strip_units(flat_num(self.unit)),
                strip_units(flat_den(self.unit)),
            ).0,
            unit_den(r.unit) == cancel(
                strip_units(flat_num(self.unit)),
                strip_units(flat_den(self.unit)),
            ).1,
            is_collapsed(r.unit),
            is_flat(r.unit),
    {
        let ghost u0 = self.unit;
        let f = (&self.unit).flatten();
        let (num, den) = f.to_fraction();
        proof {
            crate::unit::lemma_flat_atomic(u0);
        }
        let mut magnitude = self.magnitude;
        let mut new_num: Vec<Unit> = Vec::new();
        let mut new_den: Vec<Unit> = Vec::new();
        Self::strip_accumulate(num, false, &mut magnitude, &mut new_num);
        Self::strip_accumulate(den, true, &mut magnitude, &mut new_den);
        let c = Unit::Compound(new_num, new_den);
        proof {
            lemma_strip_units_atomic(flat_num(u0));
            lemma_strip_units_atomic(flat_den(u0));
            lemma_all_atomic_flat(strip_units(flat_num(u0)));
            lemma_all_atomic_flat(strip_units(flat_den(u0)));
            assert(flat_num(c) =~= strip_units(flat_num(u0)));
            assert(flat_den(c) =~= strip_units(flat_den(u0)));
        }
        let unit = c.simplify();
        Quantity { magnitude, unit }
    }

    /// Folds one flattened member list: prefixes scale the magnitude, the
    /// rest are kept.
    fn strip_accumulate(s: Vec<Unit>, invert: bool, mag: &mut BigRational, out: &mut Vec<Unit>)
        requires
            all_atomic(s@),
            old(mag).wf(),
        ensures
            final(mag).wf(),
            final(mag).pair() == strip_mag(s@, invert, old(mag).pair()),
            final(out)@ == old(out)@ + strip_units(s@),
        decreases s@.len(),
    {
        let mut s = s;
        if s.len() == 0 {
            proof {
                assert(out@ =~= out@ + strip_units(s@));
            }
            return ;
        }
        let ghost s0 = s@;
        let u = s.remove(0);
        proof {
            assert(s@ =~= s0.drop_first());
        }
        if u.is_modifier() {
            let (_, slope, _) = u.to_si_units();
            let m2 = if invert {
                mag.div(&slope)
            } else {
                mag.mul(&slope)
            };
            *mag = m2;
        } else {
            out.push(u);
        }
        Self::strip_accumulate(s, invert, mag, out);
        proof {
            if !unit_is_modifier(s0[0]) {
                assert(old(out)@.push(u) =~= old(out)@ + seq![u]);
                assert(final(out)@ =~= old(out)@ + strip_units(s0));
            }
        }
    }

    /// Structural equality of two canonical (flat, collapsed) units.
    fn flat_unit_eq(a: &Unit, b: &Unit) -> (r: bool)
        requires
            is_flat(*a),
            is_flat(*b),
            is_collapsed(*a),
            is_collapsed(*b),
        ensures
            r == (unit_num(*a) == unit_num(*b) && unit_den(*a) == unit_den(*b)),
    {
        match (a, b) {
            (Unit::Atomic(x), Unit::Atomic(y)) => {
                let r = x == y;
                proof {
                    if r {
                        assert(unit_num(*a) =~= unit_num(*b));
                        assert(unit_den(*a) =~= unit_den(*b));
                    } else {
                        assert(unit_num(*a)[0] == *a && unit_num(*b)[0] == *b);
                    }
                }
                r
            }
            (Unit::Compound(n1, d1), Unit::Compound(n2, d2)) => {
                Self::atom_vec_eq(n1, n2) && Self::atom_vec_eq(d1, d2)
            }
            (Unit::Atomic(_), Unit::Compound(_, _)) => {
                proof {
                    assert(unit_num(*a).len() == 1 && unit_den(*a).len() == 0);
                }
                false
            }
            (Unit::Compound(_, _), Unit::Atomic(_)) => {
                proof {
                    assert(unit_num(*b).len() == 1 && unit_den(*b).len() == 0);
                }
                false
            }
        }
    }

    /// Elementwise comparison of two lists of atoms.
    fn atom_vec_eq(a: &Vec<Unit>, b: &Vec<Unit>) -> (r: bool)
        requires
            all_atomic(a@),
            all_atomic(b@),
        ensures
            r == (a@ == b@),
    {
        if a.len() != b.len() {
            proof {
                assert(a@.len() != b@.len());
            }
            return false;
        }
        let mut i: usize = 0;
        while i < a.len()
            invariant
                0 <= i <= a@.len(),
                a@.len() == b@.len(),
                all_atomic(a@),
                all_atomic(b@),
                forall|k: int| 0 <= k < i ==> a@[k] == b@[k],
            decreases a@.len() - i,
        {
            let same = match (&a[i], &b[i]) {
                (Unit::Atomic(x), Unit::Atomic(y)) => x == y,
                _ => false,
            };
            if !same {
                proof {
                    assert(a@[i as int] != b@[i as int]);
                }
                return false;
            }
            i += 1;
        }
        proof {
            assert(a@ =~= b@);
        }
        true
    }

    /// The product: magnitudes multiplied, units multiplied. Never fails,
    /// whatever the units.
    pub fn mul(self, rhs: Self) -> (r: Self)
        requires
            self.wf(),
            rhs.wf(),
        ensures
            r.wf(),
            r.magnitude.pair() == rat_mul(
                self.magnitude.numer@,
                self.magnitude.denom@,
                rhs.magnitude.numer@,
                rhs.magnitude.denom@,
            ),
            unit_num(r.unit) == mul_pair(self.unit, rhs.unit).0,
            unit_den(r.unit) == mul_pair(self.unit, rhs.unit).1,
    {
        Quantity {
            magnitude: self.magnitude.mul(&rhs.magnitude),
            unit: self.unit.mul(rhs.unit),
        }
    }

    /// The quotient: magnitudes divided, units divided. Never fails on a
    /// unit mismatch; only a zero divisor is excluded.
    pub fn div(self, rhs: Self) -> (r: Self)
        requires
            self.wf(),
            rhs.wf(),
            rhs.magnitude.numer@ != 0,
        ensures
            r.wf(),
            r.magnitude.pair() == rat_div(
                self.magnitude.numer@,
                self.magnitude.denom@,
                rhs.magnitude.numer@,
                rhs.magnitude.denom@,
            ),
            unit_num(r.unit) == div_pair(self.unit, rhs.unit).0,
            unit_den(r.unit) == div_pair(self.unit, rhs.unit).1,
    {
        Quantity {
            magnitude: self.magnitude.div(&rhs.magnitude),
            unit: self.unit.div(rhs.unit),
        }
    }

    /// Scales the magnitude, leaving the unit alone.
    pub fn mul_rational(self, rhs: &BigRational) -> (r: Self)
        requires
            self.wf(),
            rhs.wf(),
        ensures
            r.wf(),
            r.magnitude.pair() == rat_mul(
                self.magnitude.numer@,
                self.magnitude.denom@,
                rhs.numer@,
                rhs.denom@,
            ),
            r.unit == self.unit,
    {
        Quantity { magnitude: self.magnitude.mul(rhs), unit: self.unit }
    }

    /// Divides the magnitude, leaving the unit alone.
    pub fn div_rational(self, rhs: &BigRational) -> (r: Self)
        requires
            self.wf(),
            rhs.wf(),
            rhs.numer@ != 0,
        ensures
            r.wf(),
            r.magnitude.pair() == rat_div(
                self.magnitude.numer@,
                self.magnitude.denom@,
                rhs.numer@,
                rhs.denom@,
            ),
            r.unit == self.unit,
    {
        Quantity { magnitude: self.magnitude.div(rhs), unit: self.unit }
    }

    pub fn neg(self) -> (r: Self)
        ensures
            r.magnitude.pair() == (-self.magnitude.numer@, self.magnitude.denom@),
            r.unit == self.unit,
            self.wf() ==> r.wf(),
    {
        Quantity { magnitude: self.magnitude.neg(), unit: self.unit }
    }


    /// In-place product: the compound-assignment form of `mul`.
    pub fn mul_assign(&mut self, rhs: Self)
        requires
            old(self).wf(),
            rhs.wf(),
        ensures
            final(self).wf(),
            final(self).magnitude.pair() == rat_mul(
                old(self).magnitude.numer@,
                old(self).magnitude.denom@,
                rhs.magnitude.numer@,
                rhs.magnitude.denom@,
            ),
            unit_num(final(self).unit) == mul_pair(old(self).unit, rhs.unit).0,
            unit_den(final(self).unit) == mul_pair(old(self).unit, rhs.unit).1,
    {
        let mut taken = Quantity { magnitude: BigRational::zero(), unit: Unit::unitless() };
        core::mem::swap(&mut taken, self);
        *self = taken.mul(rhs);
    }

    /// In-place quotient: the compound-assignment form of `div`.
    pub fn div_assign(&mut self, rhs: Self)
        requires
            old(self).wf(),
            rhs.wf(),
            rhs.magnitude.numer@ != 0,
        ensures
            final(self).wf(),
            final(self).magnitude.pair() == rat_div(
                old(self).magnitude.numer@,
                old(self).magnitude.denom@,
                rhs.magnitude.numer@,
                rhs.magnitude.denom@,
            ),
            unit_num(final(self).unit) == div_pair(old(self).unit, rhs.unit).0,
            unit_den(final(self).unit) == div_pair(old(self).unit, rhs.unit).1,
    {
        let mut taken = Quantity { magnitude: BigRational::zero(), unit: Unit::unitless() };
        core::mem::swap(&mut taken, self);
        *self = taken.div(rhs);
    }

    /// In-place scaling: the compound-assignment form of `mul_rational`.
    pub fn mul_rational_assign(&mut self, rhs: &BigRational)
        requires
            old(self).wf(),
            rhs.wf(),
        ensures
            final(self).wf(),
            final(self).magnitude.pair() == rat_mul(
                old(self).magnitude.numer@,
                old(self).magnitude.denom@,
                rhs.numer@,
                rhs.denom@,
            ),
            final(self).unit == old(self).unit,
    {
        let m = self.magnitude.mul(rhs);
        self.magnitude = m;
    }

    /// In-place scaling: the compound-assignment form of `div_rational`.
    pub fn div_rational_assign(&mut self, rhs: &BigRational)
        requires
            old(self).wf(),
            rhs.wf(),
            rhs.numer@ != 0,
        ensures
            final(self).wf(),
            final(self).magnitude.pair() == rat_div(
                old(self).magnitude.numer@,
                old(self).magnitude.denom@,
                rhs.numer@,
                rhs.denom@,
            ),
            final(self).unit == old(self).unit,
    {
        let m = self.magnitude.div(rhs);
        self.magnitude = m;
    }

    /// In-place sum: the compound-assignment form of `add`. Adding across
    /// incompatible dimensions is a caller error, so the units must be
    /// convertible; the fallible form is `add`.
    pub fn add_assign(&mut self, rhs: Self)
        requires
            old(self).wf(),
            rhs.wf(),
            convertible(rhs.unit, old(self).unit),
        ensures
            final(self).wf(),
            final(self).unit == old(self).unit,
            ({
                let c = convert_mag(rhs.magnitude.pair(), rhs.unit, old(self).unit);
                final(self).magnitude.pair() == rat_add(
                    old(self).magnitude.numer@,
                    old(self).magnitude.denom@,
                    c.0,
                    c.1,
                )
            }),
    {
        let mut taken = Quantity { magnitude: BigRational::zero(), unit: Unit::unitless() };
        core::mem::swap(&mut taken, self);
        let sum = match taken.add(rhs) {
            Ok(q) => q,
            Err(_) => vstd::pervasive::unreached(),
        };
        *self = sum;
    }

    /// In-place difference: the compound-assignment form of `sub`, under
    /// the same unit rules as `add_assign`.
    pub fn sub_assign(&mut self, rhs: Self)
        requires
            old(self).wf(),
            rhs.wf(),
            convertible(rhs.unit, old(self).unit),
        ensures
            final(self).wf(),
            final(self).unit == old(self).unit,
            ({
                let c = convert_mag(rhs.magnitude.pair(), rhs.unit, old(self).unit);
                final(self).magnitude.pair() == rat_sub(
                    old(self).magnitude.numer@,
                    old(self).magnitude.denom@,
                    c.0,
                    c.1,
                )
            }),
    {
        let mut taken = Quantity { magnitude: BigRational::zero(), unit: Unit::unitless() };
        core::mem::swap(&mut taken, self);
        let difference = match taken.sub(rhs) {
            Ok(q) => q,
            Err(_) => vstd::pervasive::unreached(),
        };
        *self = difference;
    }

    /// The sum: the right operand is converted into the left operand's
    /// exact unit first. Fails exactly when the canonical SI expressions of
    /// the two units differ.
    pub fn add(self, rhs: Self) -> (r: Result<Self, ConversionError>)
        requires
            self.wf(),
            rhs.wf(),
        ensures
            match r {
                Ok(q) => {
                    &&& convertible(rhs.unit, self.unit)
                    &&& q.unit == self.unit
                    &&& q.wf()
                    &&& ({
                        let c = convert_mag(rhs.magnitude.pair(), rhs.unit, self.unit);
                        q.magnitude.pair() == rat_add(
                            self.magnitude.numer@,
                            self.magnitude.denom@,
                            c.0,
                            c.1,
                        )
                    })
                },
                Err(_) => !convertible(rhs.unit, self.unit),
            },
    {
        match rhs.convert_to(self.unit) {
            Ok(converted) => Ok(
                Quantity {
                    magnitude: self.magnitude.add(&converted.magnitude),
                    unit: converted.unit,
                },
            ),
            Err(e) => Err(e),
        }
    }

    /// The difference, under the same unit rules as addition.
    pub fn sub(self, rhs: Self) -> (r: Result<Self, ConversionError>)
        requires
            self.wf(),
            rhs.wf(),
        ensures
            match r {
                Ok(q) => {
                    &&& convertible(rhs.unit, self.unit)
                    &&& q.unit == self.unit
                    &&& q.wf()
                    &&& ({
                        let c = convert_mag(rhs.magnitude.pair(), rhs.unit, self.unit);
                        q.magnitude.pair() == rat_sub(
                            self.magnitude.numer@,
                            self.magnitude.denom@,
                            c.0,
                            c.1,
                        )
                    })
                },
                Err(_) => !convertible(rhs.unit, self.unit),
            },
    {
        match rhs.convert_to(self.unit) {
            Ok(converted) => Ok(
                Quantity {
                    magnitude: self.magnitude.sub(&converted.magnitude),
                    unit: converted.unit,
                },
            ),
            Err(e) => Err(e),
        }
    }
}

/// Stripping prefixes keeps only atoms.
pub proof fn lemma_strip_units_atomic(s: Seq<Unit>)
    requires
        all_atomic(s),
    ensures
        all_atomic(strip_units(s)),
    decreases s.len(),
{
    if s.len() == 0 {
    } else {
        lemma_strip_units_atomic(s.drop_first());
        assert(s[0] is Atomic);
        if !unit_is_modifier(s[0]) {
            let rest = strip_units(s.drop_first());
            let w = seq![s[0]] + rest;
            assert forall|i: int| 0 <= i < w.len() implies w[i] is Atomic by {
                if i == 0 {
                    assert(w[0] == s[0]);
                } else {
                    assert(w[i] == rest[i - 1]);
                }
            }
        }
    }
}

} // verus!
