//! Units of measurement: a catalog of atomic units and a `Compound` form
//! holding ordered numerator and denominator lists, with the algebra that
//! multiplies, divides, flattens and simplifies them.

use vstd::prelude::*;

verus! {

/// An atomic unit of measurement from the fixed catalog.
#[derive(Debug, Clone, Copy, PartialEq, Eq, Structural, Hash)]
pub enum Atom {
    Newton,
    Joule,
    Ohm,
    Hertz,
    Volt,
    Kelvin,
    Celsius,
    Fahrenheit,
    Hectare,
    Tesla,
    Bit,
    Byte,
    Siemens,
    Watt,
    Liter,
    CubicInch,
    CubicFeet,
    CubicYard,
    Pint,
    Quart,
    Gallon,
    Pascal,
    Henry,
    Mole,
    Candela,
    Ampere,
    Weber,
    Meter,
    AU,
    Inch,
    Feet,
    Yard,
    Mile,
    NauticalMile,
    LightYear,
    Parsec,
    Coulomb,
    Gram,
    Tonne,
    Dram,
    Ounce,
    Pound,
    Farad,
    Second,
    Minute,
    Hour,
    Day,
    Month,
    Year,
    Quecto,
    Ronto,
    Yocto,
    Zepto,
    Atto,
    Femto,
    Pico,
    Nano,
    Micro,
    Milli,
    Centi,
    Deci,
    Hecto,
    Kilo,
    Mega,
    Giga,
    Tera,
    Peta,
    Exa,
    Zetta,
    Yotta,
    Ronna,
    Quetta,
    Kibi,
    Mebi,
    Gibi,
    Tebi,
    Pebi,
    Exbi,
}

/// A unit: a single atom, or a fraction of units given by an ordered
/// numerator list and an ordered denominator list. Compounds may nest until
/// they are flattened.
#[derive(Debug, PartialEq, Eq)]
pub enum Unit {
    Atomic(Atom),
    Compound(Vec<Unit>, Vec<Unit>),
}

/// The numerator atoms that `u` contributes once fully flattened, in order:
/// an atom contributes itself; a compound contributes its numerator members'
/// numerator parts, then its denominator members' denominator parts.
pub open spec fn flat_num(u: Unit) -> Seq<Unit>
    decreases u,
{
    match u {
        Unit::Atomic(_) => seq![u],
        Unit::Compound(n, d) => nn_seq(n@) + dd_seq(d@),
    }
}

/// The denominator atoms that `u` contributes once fully flattened.
pub open spec fn flat_den(u: Unit) -> Seq<Unit>
    decreases u,
{
    match u {
        Unit::Atomic(_) => Seq::empty(),
        Unit::Compound(n, d) => dd_seq(n@) + nn_seq(d@),
    }
}

/// Concatenated numerator contributions of a list of members.
pub open spec fn nn_seq(s: Seq<Unit>) -> Seq<Unit>
    decreases s,
{
    if s.len() == 0 {
        Seq::empty()
    } else {
        flat_num(s[0]) + nn_seq(s.drop_first())
    }
}

/// Concatenated denominator contributions of a list of members.
pub open spec fn dd_seq(s: Seq<Unit>) -> Seq<Unit>
    decreases s,
{
    if s.len() == 0 {
        Seq::empty()
    } else {
        flat_den(s[0]) + dd_seq(s.drop_first())
    }
}

/// Reading a unit as a fraction without rewriting it: an atom is itself
/// over an empty denominator.
pub open spec fn unit_num(u: Unit) -> Seq<Unit> {
    match u {
        Unit::Compound(n, _) => n@,
        _ => seq![u],
    }
}

pub open spec fn unit_den(u: Unit) -> Seq<Unit> {
    match u {
        Unit::Compound(_, d) => d@,
    _ => Seq::empty(),
    }
}

pub open spec fn all_atomic(s: Seq<Unit>) -> bool {
    forall|i: int| 0 <= i < s.len() ==> s[i] is Atomic
}

/// A flat unit nests no compound inside its lists.
pub open spec fn is_flat(u: Unit) -> bool {
    match u {
        Unit::Atomic(_) => true,
        Unit::Compound(n, d) => all_atomic(n@) && all_atomic(d@),
    }
}

/// Simplification never leaves a compound of exactly one numerator member
/// and no denominator: that shape collapses to the bare member.
pub open spec fn is_collapsed(u: Unit) -> bool {
    !match u {
        Unit::Compound(n, d) => n@.len() == 1 && d@.len() == 0,
        _ => false,
    }
}

/// The position of the first occurrence of `x` in `s`, or `-1`.
pub open spec fn first_index_of(s: Seq<Unit>, x: Unit) -> int
    decreases s.len(),
{
    if s.len() == 0 {
        -1
    } else if s[0] == x {
        0
    } else {
        let r = first_index_of(s.drop_first(), x);
        if r < 0 {
            -1
        } else {
            r + 1
        }
    }
}

/// First-match cancellation: walk the numerator left to right; each member
/// with an equal member anywhere in the denominator removes one occurrence
/// of each; members without a match stay.
pub open spec fn cancel_from(i: int, num: Seq<Unit>, den: Seq<Unit>) -> (Seq<Unit>, Seq<Unit>)
    decreases num.len() - i,
{
    if i < 0 || i >= num.len() {
        (num, den)
    } else {
        let j = first_index_of(den, num[i]);
        if j >= 0 {
            cancel_from(i, num.remove(i), den.remove(j))
        } else {
            cancel_from(i + 1, num, den)
        }
    }
}

pub open spec fn cancel(num: Seq<Unit>, den: Seq<Unit>) -> (Seq<Unit>, Seq<Unit>) {
    cancel_from(0, num, den)
}

/// The numerator of the simplified form of `u`.
pub open spec fn simp_num(u: Unit) -> Seq<Unit> {
    cancel(flat_num(u), flat_den(u)).0
}

/// The denominator of the simplified form of `u`.
pub open spec fn simp_den(u: Unit) -> Seq<Unit> {
    cancel(flat_num(u), flat_den(u)).1
}

/// Every flattened contribution is a bare atom.
pub proof fn lemma_flat_atomic(u: Unit)
    ensures
        all_atomic(flat_num(u)),
        all_atomic(flat_den(u)),
    decreases u,
{
    match u {
        Unit::Atomic(_) => {
            assert(flat_num(u) =~= seq![u]);
        }
        Unit::Compound(n, d) => {
            lemma_nn_dd_atomic(n@);
            lemma_nn_dd_atomic(d@);
        }
    }
}

pub proof fn lemma_nn_dd_atomic(s: Seq<Unit>)
    ensures
        all_atomic(nn_seq(s)),
        all_atomic(dd_seq(s)),
    decreases s,
{
    if s.len() == 0 {
    } else {
        lemma_flat_atomic(s[0]);
        lemma_nn_dd_atomic(s.drop_first());
    }
}

/// Concatenation distributes over flattened contributions.
pub proof fn lemma_nn_seq_concat(s: Seq<Unit>, t: Seq<Unit>)
    ensures
        nn_seq(s + t) =~= nn_seq(s) + nn_seq(t),
        dd_seq(s + t) =~= dd_seq(s) + dd_seq(t),
    decreases s,
{
    if s.len() == 0 {
        assert(s + t =~= t);
    } else {
        assert((s + t).drop_first() =~= s.drop_first() + t);
        lemma_nn_seq_concat(s.drop_first(), t);
    }
}

impl Unit {
    /// Atoms compared by tag; only valid on atomic units.
    fn atom_eq(a: &Unit, b: &Unit) -> (r: bool)
        requires
            a is Atomic,
            b is Atomic,
        ensures
            r == (*a == *b),
    {
        match (a, b) {
            (Unit::Atomic(x), Unit::Atomic(y)) => x == y,
            _ => false,
        }
    }

    /// Recursively inlines nested compound members: a nested compound in the
    /// numerator contributes its numerator up and its denominator down; one
    /// in the denominator contributes inverted.
    pub fn flatten(&self) -> (r: Self)
        ensures
            unit_num(r) == flat_num(*self),
            unit_den(r) == flat_den(*self),
            *self is Atomic ==> r == *self,
            *self is Compound ==> r is Compound,
            is_flat(r),
    {
        proof {
            lemma_flat_atomic(*self);
        }
        match self {
            Unit::Atomic(a) => {
                let r = Unit::Atomic(*a);
                proof {
                    assert(unit_num(r) =~= flat_num(*self));
                    assert(unit_den(r) =~= flat_den(*self));
                }
                r
            }
            Unit::Compound(n, d) => {
                let mut out_num: Vec<Unit> = Vec::new();
                let mut out_den: Vec<Unit> = Vec::new();
                Self::flatten_list(n, 0, false, &mut out_num, &mut out_den);
                Self::flatten_list(d, 0, true, &mut out_num, &mut out_den);
                proof {
                    assert(n@.skip(0) =~= n@);
                    assert(d@.skip(0) =~= d@);
                    assert(out_num@ =~= nn_seq(n@) + dd_seq(d@));
                    assert(out_den@ =~= dd_seq(n@) + nn_seq(d@));
                }
                Unit::Compound(out_num, out_den)
            }
        }
    }

    /// Appends the flattened contributions of one member; `invert` says the
    /// member stands in a denominator.
    fn flatten_into(u: &Unit, invert: bool, out_num: &mut Vec<Unit>, out_den: &mut Vec<Unit>)
        ensures
            final(out_num)@ == old(out_num)@ + (if invert {
                flat_den(*u)
            } else {
                flat_num(*u)
            }),
            final(out_den)@ == old(out_den)@ + (if invert {
                flat_num(*u)
            } else {
                flat_den(*u)
            }),
        decreases unit_size(*u), 0int,
    {
        match u {
            Unit::Atomic(a) => {
                let leaf = Unit::Atomic(*a);
                proof {
                    assert(leaf == *u);
                    assert(flat_num(*u) =~= seq![*u]);
                }
                if invert {
                    out_den.push(leaf);
                    proof {
                        assert(out_num@ =~= old(out_num)@ + flat_den(*u));
                    }
                } else {
                    out_num.push(leaf);
                    proof {
                        assert(out_den@ =~= old(out_den)@ + flat_den(*u));
                    }
                }
            }
            Unit::Compound(n, d) => {
                proof {
                    assert(n@.skip(0) =~= n@);
                    assert(d@.skip(0) =~= d@);
                }
                Self::flatten_list(n, 0, invert, out_num, out_den);
                Self::flatten_list(d, 0, !invert, out_num, out_den);
            }
        }
    }

    /// Appends the flattened contributions of the members from index `i` on.
    fn flatten_list(
        s: &Vec<Unit>,
        i: usize,
        invert: bool,
        out_num: &mut Vec<Unit>,
        out_den: &mut Vec<Unit>,
    )
        requires
            i <= s@.len(),
        ensures
            final(out_num)@ == old(out_num)@ + (if invert {
                dd_seq(s@.skip(i as int))
            } else {
                nn_seq(s@.skip(i as int))
            }),
            final(out_den)@ == old(out_den)@ + (if invert {
                nn_seq(s@.skip(i as int))
            } else {
                dd_seq(s@.skip(i as int))
            }),
        decreases seq_size(s@.skip(i as int)), 1int,
    {
        let ghost rest = s@.skip(i as int);
        if i == s.len() {
            proof {
                assert(rest =~= Seq::<Unit>::empty());
                assert(out_num@ =~= old(out_num)@ + Seq::<Unit>::empty());
                assert(out_den@ =~= old(out_den)@ + Seq::<Unit>::empty());
            }
            return ;
        }
        let u = &s[i];
        proof {
            assert(rest[0] == s@[i as int]);
            assert(rest.drop_first() =~= s@.skip(i as int + 1));
            lemma_unit_size_pos(*u);
        }
        Self::flatten_into(u, invert, out_num, out_den);
        Self::flatten_list(s, i + 1, invert, out_num, out_den);
        proof {
            if invert {
                assert(out_num@ =~= old(out_num)@ + dd_seq(rest));
                assert(out_den@ =~= old(out_den)@ + nn_seq(rest));
            } else {
                assert(out_num@ =~= old(out_num)@ + nn_seq(rest));
                assert(out_den@ =~= old(out_den)@ + dd_seq(rest));
            }
        }
    }
}

/// The simplified content of the product `a * b`: the two numerator lists
/// concatenated over the two denominator lists, flattened and cancelled.
pub open spec fn mul_pair(a: Unit, b: Unit) -> (Seq<Unit>, Seq<Unit>) {
    cancel(
        nn_seq(unit_num(a)) + nn_seq(unit_num(b)) + dd_seq(unit_den(a)) + dd_seq(unit_den(b)),
        dd_seq(unit_num(a)) + dd_seq(unit_num(b)) + nn_seq(unit_den(a)) + nn_seq(unit_den(b)),
    )
}

/// The simplified content of the quotient `a / b`: multiplication by the
/// reciprocal of `b`.
pub open spec fn div_pair(a: Unit, b: Unit) -> (Seq<Unit>, Seq<Unit>) {
    cancel(
        nn_seq(unit_num(a)) + nn_seq(unit_den(b)) + dd_seq(unit_den(a)) + dd_seq(unit_num(b)),
        dd_seq(unit_num(a)) + dd_seq(unit_den(b)) + nn_seq(unit_den(a)) + nn_seq(unit_num(b)),
    )
}

/// The empty compound, which represents a dimensionless value.
pub open spec fn unitless_spec(u: Unit) -> bool {
    u matches Unit::Compound(n, d) && n@.len() == 0 && d@.len() == 0
}

/// Where the first occurrence sits, what it is, and what the absence of one
/// means.
pub proof fn lemma_first_index_of_props(s: Seq<Unit>, x: Unit)
    ensures
        first_index_of(s, x) == -1 ==> (forall|i: int| 0 <= i < s.len() ==> s[i] != x),
        first_index_of(s, x) >= 0 ==> 0 <= first_index_of(s, x) < s.len() && s[first_index_of(
            s,
            x,
        )] == x && (forall|i: int| 0 <= i < first_index_of(s, x) ==> s[i] != x),
        (exists|i: int| 0 <= i < s.len() && s[i] == x) ==> first_index_of(s, x) >= 0,
    decreases s.len(),
{
    if s.len() == 0 {
    } else if s[0] == x {
    } else {
        lemma_first_index_of_props(s.drop_first(), x);
        let t = s.drop_first();
        assert(forall|i: int| 1 <= i < s.len() ==> s[i] == t[i - 1]);
        if first_index_of(s, x) >= 0 {
            let r = first_index_of(t, x);
            assert(s[r + 1] == t[r]);
        }
        if exists|i: int| 0 <= i < s.len() && s[i] == x {
            let w = choose|i: int| 0 <= i < s.len() && s[i] == x;
            assert(t[w - 1] == s[w]);
        }
    }
}

impl Unit {
    /// Linear search for the first member equal to `x`.
    fn find_in(den: &Vec<Unit>, x: &Unit) -> (r: Option<usize>)
        requires
            all_atomic(den@),
            x is Atomic,
        ensures
            match r {
                Some(j) => j == first_index_of(den@, *x) && j < den@.len(),
                None => first_index_of(den@, *x) == -1,
            },
    {
        proof {
            lemma_first_index_of_props(den@, *x);
        }
        let mut j: usize = 0;
        while j < den.len()
            invariant
                0 <= j <= den@.len(),
                all_atomic(den@),
                x is Atomic,
                forall|k: int| 0 <= k < j ==> den@[k] != *x,
            decreases den@.len() - j,
        {
            if Self::atom_eq(&den[j], x) {
                proof {
                    lemma_first_index_of_props(den@, *x);
                }
                return Some(j);
            }
            j += 1;
        }
        proof {
            lemma_first_index_of_props(den@, *x);
        }
        None
    }

    /// Flattens, then cancels equal members across the fraction bar once
    /// each, first match wins; a lone numerator member over an empty
    /// denominator collapses to that member.
    pub fn simplify(self) -> (r: Self)
        ensures
            unit_num(r) == simp_num(self),
            unit_den(r) == simp_den(self),
            is_collapsed(r),
            is_flat(r),
            all_atomic(unit_num(r)),
            all_atomic(unit_den(r)),
    {
        let ghost whole = self;
        let f = (&self).flatten();
        match f {
            Unit::Atomic(_) => {
                proof {
                    let n0 = flat_num(whole);
                    let d0 = flat_den(whole);
                    assert(n0 =~= seq![f]);
                    assert(d0 =~= Seq::<Unit>::empty());
                    assert(first_index_of(d0, n0[0]) == -1);
                    assert(cancel_from(1, n0, d0) == (n0, d0));
                    assert(unit_num(f) =~= simp_num(whole));
                    assert(unit_den(f) =~= simp_den(whole));
                }
                f
            }
            Unit::Compound(num, den) => {
                let mut num = num;
                let mut den = den;
                let ghost n0 = flat_num(whole);
                let ghost d0 = flat_den(whole);
                let mut i: usize = 0;
                while i < num.len()
                    invariant
                        0 <= i <= num@.len(),
                        all_atomic(num@),
                        all_atomic(den@),
                        cancel_from(i as int, num@, den@) == cancel_from(0, n0, d0),
                    decreases num@.len() - i,
                {
                    let x = &num[i];
                    match Self::find_in(&den, x) {
                        Some(j) => {
                            let ghost gn = num@;
                            let ghost gd = den@;
                            let _ = num.remove(i);
                            let _ = den.remove(j);
                            proof {
                                assert(num@ =~= gn.remove(i as int));
                                assert(den@ =~= gd.remove(j as int));
                            }
                        }
                        None => {
                            i += 1;
                        }
                    }
                }
                proof {
                    assert(cancel_from(i as int, num@, den@) == (num@, den@));
                    assert((num@, den@) == cancel(n0, d0));
                }
                if den.len() == 0 && num.len() == 1 {
                    let ghost gn = num@;
                    let u = num.remove(0);
                    proof {
                        assert(u == gn[0]);
                        assert(u is Atomic);
                        assert(unit_num(u) =~= gn);
                        assert(unit_den(u) =~= Seq::<Unit>::empty());
                        assert(unit_den(u) =~= simp_den(whole));
                    }
                    u
                } else {
                    Unit::Compound(num, den)
                }
            }
        }
    }

    /// The unit read as `(numerator, denominator)`.
    pub fn to_fraction(self) -> (r: (Vec<Unit>, Vec<Unit>))
        ensures
            r.0@ == unit_num(self),
            r.1@ == unit_den(self),
    {
        match self {
            Unit::Compound(n, d) => (n, d),
            u => {
                let mut v: Vec<Unit> = Vec::new();
                v.push(u);
                proof {
                    assert(v@ =~= seq![u]);
                }
                (v, Vec::new())
            }
        }
    }

    /// The product: both numerator lists over both denominator lists,
    /// simplified.
    pub fn mul(self, rhs: Self) -> (r: Self)
        ensures
            unit_num(r) == mul_pair(self, rhs).0,
            unit_den(r) == mul_pair(self, rhs).1,
            is_collapsed(r),
            is_flat(r),
    {
        let ghost ga = self;
        let ghost gb = rhs;
        let (mut n1, mut d1) = self.to_fraction();
        let (mut n2, mut d2) = rhs.to_fraction();
        n1.append(&mut n2);
        d1.append(&mut d2);
        let c = Unit::Compound(n1, d1);
        proof {
            lemma_nn_seq_concat(unit_num(ga), unit_num(gb));
            lemma_nn_seq_concat(unit_den(ga), unit_den(gb));
            assert(flat_num(c) =~= nn_seq(unit_num(ga)) + nn_seq(unit_num(gb)) + dd_seq(
                unit_den(ga),
            ) + dd_seq(unit_den(gb)));
            assert(flat_den(c) =~= dd_seq(unit_num(ga)) + dd_seq(unit_num(gb)) + nn_seq(
                unit_den(ga),
            ) + nn_seq(unit_den(gb)));
        }
        c.simplify()
    }

    /// The quotient: multiplication by the reciprocal, simplified.
    pub fn div(self, rhs: Self) -> (r: Self)
        ensures
            unit_num(r) == div_pair(self, rhs).0,
            unit_den(r) == div_pair(self, rhs).1,
            is_collapsed(r),
            is_flat(r),
    {
        let ghost ga = self;
        let ghost gb = rhs;
        let (mut n1, mut d1) = self.to_fraction();
        let (mut n2, mut d2) = rhs.to_fraction();
        n1.append(&mut d2);
        d1.append(&mut n2);
        let c = Unit::Compound(n1, d1);
        proof {
            lemma_nn_seq_concat(unit_num(ga), unit_den(gb));
            lemma_nn_seq_concat(unit_den(ga), unit_num(gb));
            assert(flat_num(c) =~= nn_seq(unit_num(ga)) + nn_seq(unit_den(gb)) + dd_seq(
                unit_den(ga),
            ) + dd_seq(unit_num(gb)));
            assert(flat_den(c) =~= dd_seq(unit_num(ga)) + dd_seq(unit_den(gb)) + nn_seq(
                unit_den(ga),
            ) + nn_seq(unit_num(gb)));
        }
        c.simplify()
    }

    /// In-place product: the compound-assignment form of `mul`.
    pub fn mul_assign(&mut self, rhs: Self)
        ensures
            unit_num(*final(self)) == mul_pair(*old(self), rhs).0,
            unit_den(*final(self)) == mul_pair(*old(self), rhs).1,
            is_collapsed(*final(self)),
            is_flat(*final(self)),
    {
        let mut taken = Unit::Compound(Vec::new(), Vec::new());
        core::mem::swap(&mut taken, self);
        *self = taken.mul(rhs);
    }

    /// In-place quotient: the compound-assignment form of `div`.
    pub fn div_assign(&mut self, rhs: Self)
        ensures
            unit_num(*final(self)) == div_pair(*old(self), rhs).0,
            unit_den(*final(self)) == div_pair(*old(self), rhs).1,
            is_collapsed(*final(self)),
            is_flat(*final(self)),
    {
        let mut taken = Unit::Compound(Vec::new(), Vec::new());
        core::mem::swap(&mut taken, self);
        *self = taken.div(rhs);
    }

    /// Whether the unit is the empty compound: a dimensionless value.
    pub fn is_unitless(&self) -> (r: bool)
        ensures
            r == unitless_spec(*self),
    {
        match self {
            Unit::Compound(n, d) => n.len() == 0 && d.len() == 0,
            _ => false,
        }
    }

    /// The unit of dimensionless values: an empty compound.
    pub fn unitless() -> (r: Self)
        ensures
            unitless_spec(r),
    {
        Unit::Compound(Vec::new(), Vec::new())
    }
}

/// A structural size measure: every unit counts one, plus its members.
pub open spec fn unit_size(u: Unit) -> nat
    decreases u,
{
    match u {
        Unit::Atomic(_) => 1,
        Unit::Compound(n, d) => 1 + seq_size(n@) + seq_size(d@),
    }
}

pub open spec fn seq_size(s: Seq<Unit>) -> nat
    decreases s,
{
    if s.len() == 0 {
        0
    } else {
        unit_size(s[0]) + seq_size(s.drop_first())
    }
}

pub proof fn lemma_unit_size_pos(u: Unit)
    ensures
        unit_size(u) >= 1,
{
}

} // verus!
