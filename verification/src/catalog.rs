//! The fixed catalog of atomic units: for every atom an affine conversion
//! triple `(offset, slope, SI expression)` such that
//! `value_in_SI = (value + offset) * slope`, where the SI expression is
//! built only from SI base atoms and the `Kilo` prefix. The catalog also
//! says which atoms are pure scale prefixes.

use vstd::prelude::*;
use crate::unit::{
    Atom, Unit, unit_num, unit_den, is_collapsed, is_flat, all_atomic, flat_num, flat_den, nn_seq,
    dd_seq, cancel,
};
use crate::rational::{BigRational, rat_add, rat_reduce};
use crate::scalable_integer::ScalableInteger;

verus! {

/// Shorthand for an atomic unit value.
pub open spec fn au(a: Atom) -> Unit {
    Unit::Atomic(a)
}

/// The `(numerator, denominator)` offset of an atom: nonzero only for the
/// affine temperature scales.
pub open spec fn atom_offset(a: Atom) -> (int, int) {
    match a {
        Atom::Celsius => (5463int, 20int),
        Atom::Fahrenheit => (45967int, 100int),
        _ => (0int, 1int),
    }
}

/// The `(numerator, denominator)` slope of an atom, in lowest terms with a
/// positive denominator.
pub open spec fn atom_slope(a: Atom) -> (int, int) {
    match a {
        Atom::Fahrenheit => (13889int, 25000int),
        Atom::Hectare => (10000int, 1int),
        Atom::Byte => (8int, 1int),
        Atom::Liter => (1int, 1000int),
        Atom::CubicInch => (2048383int, 125000000000int),
        Atom::CubicFeet => (55306341int, 1953125000int),
        Atom::CubicYard => (1493271207int, 1953125000int),
        Atom::Pint => (473176473int, 1000000000000int),
        Atom::Quart => (473176473int, 500000000000int),
        Atom::Gallon => (473176473int, 125000000000int),
        Atom::AU => (149597870691int, 1int),
        Atom::Inch => (127int, 5000int),
        Atom::Feet => (381int, 1250int),
        Atom::Yard => (1143int, 1250int),
        Atom::Mile => (201168int, 125int),
        Atom::NauticalMile => (1852int, 1int),
        Atom::LightYear => (9460730472580800int, 1int),
        Atom::Parsec => (30857000000000000int, 1int),
        Atom::Tonne => (1000000int, 1int),
        Atom::Dram => (17718451953int, 10000000000int),
        Atom::Ounce => (45359237int, 1600000int),
        Atom::Pound => (45359237int, 100000int),
        Atom::Minute => (60int, 1int),
        Atom::Hour => (3600int, 1int),
        Atom::Day => (86400int, 1int),
        Atom::Month => (2629746int, 1int),
        Atom::Year => (31557600int, 1int),
        Atom::Quecto => (1int, 1000000000000000000000000000000int),
        Atom::Ronto => (1int, 1000000000000000000000000000int),
        Atom::Yocto => (1int, 1000000000000000000000000int),
        Atom::Zepto => (1int, 1000000000000000000000int),
        Atom::Atto => (1int, 1000000000000000000int),
        Atom::Femto => (1int, 1000000000000000int),
        Atom::Pico => (1int, 1000000000000int),
        Atom::Nano => (1int, 1000000000int),
        Atom::Micro => (1int, 1000000int),
        Atom::Milli => (1int, 1000int),
        Atom::Centi => (1int, 100int),
        Atom::Deci => (1int, 10int),
        Atom::Hecto => (100int, 1int),
        Atom::Kilo => (1000int, 1int),
        Atom::Mega => (1000000int, 1int),
        Atom::Giga => (1000000000int, 1int),
        Atom::Tera => (1000000000000int, 1int),
        Atom::Peta => (1000000000000000int, 1int),
        Atom::Exa => (1000000000000000000int, 1int),
        Atom::Zetta => (1000000000000000000000int, 1int),
        Atom::Yotta => (1000000000000000000000000int, 1int),
        Atom::Ronna => (1000000000000000000000000000int, 1int),
        Atom::Quetta => (1000000000000000000000000000000int, 1int),
        Atom::Kibi => (1024int, 1int),
        Atom::Mebi => (1048576int, 1int),
        Atom::Gibi => (1073741824int, 1int),
        Atom::Tebi => (1099511627776int, 1int),
        Atom::Pebi => (1125899906842624int, 1int),
        Atom::Exbi => (1152921504606846976int, 1int),
        _ => (1int, 1int),
    }
}

/// The numerator of an atom's SI expression.
pub open spec fn atom_si_num(a: Atom) -> Seq<Unit> {
    match a {
        Atom::Newton => seq![au(Atom::Kilo), au(Atom::Gram), au(Atom::Meter)],
        Atom::Joule | Atom::Ohm | Atom::Volt | Atom::Watt | Atom::Henry | Atom::Weber => seq![
            au(Atom::Kilo),
            au(Atom::Gram),
            au(Atom::Meter),
            au(Atom::Meter),
        ],
        Atom::Hertz => Seq::empty(),
        Atom::Hectare => seq![au(Atom::Meter), au(Atom::Meter)],
        Atom::Tesla | Atom::Pascal => seq![au(Atom::Kilo), au(Atom::Gram)],
        Atom::Siemens => seq![
            au(Atom::Second),
            au(Atom::Second),
            au(Atom::Second),
            au(Atom::Ampere),
            au(Atom::Ampere),
        ],
        Atom::Liter | Atom::CubicInch | Atom::CubicFeet | Atom::CubicYard | Atom::Pint
            | Atom::Quart | Atom::Gallon => seq![au(Atom::Meter), au(Atom::Meter), au(Atom::Meter)],
        Atom::Coulomb => seq![au(Atom::Second), au(Atom::Ampere)],
        Atom::Farad => seq![
            au(Atom::Second),
            au(Atom::Second),
            au(Atom::Second),
            au(Atom::Second),
            au(Atom::Ampere),
            au(Atom::Ampere),
        ],
        Atom::Kelvin | Atom::Celsius | Atom::Fahrenheit => seq![au(Atom::Kelvin)],
        Atom::Bit | Atom::Byte => seq![au(Atom::Bit)],
        Atom::Mole => seq![au(Atom::Mole)],
        Atom::Candela => seq![au(Atom::Candela)],
        Atom::Ampere => seq![au(Atom::Ampere)],
        Atom::Meter | Atom::AU | Atom::Inch | Atom::Feet | Atom::Yard | Atom::Mile
            | Atom::NauticalMile | Atom::LightYear | Atom::Parsec => seq![au(Atom::Meter)],
        Atom::Gram | Atom::Tonne | Atom::Dram | Atom::Ounce | Atom::Pound => seq![au(Atom::Gram)],
        Atom::Second | Atom::Minute | Atom::Hour | Atom::Day | Atom::Month | Atom::Year => seq![
            au(Atom::Second),
        ],
        _ => Seq::empty(),
    }
}

/// The denominator of an atom's SI expression.
pub open spec fn atom_si_den(a: Atom) -> Seq<Unit> {
    match a {
        Atom::Newton | Atom::Joule => seq![au(Atom::Second), au(Atom::Second)],
        Atom::Ohm => seq![
            au(Atom::Second),
            au(Atom::Second),
            au(Atom::Second),
            au(Atom::Ampere),
            au(Atom::Ampere),
        ],
        Atom::Hertz => seq![au(Atom::Second)],
        Atom::Volt => seq![au(Atom::Second), au(Atom::Second), au(Atom::Second), au(Atom::Ampere)],
        Atom::Tesla | Atom::Weber => seq![au(Atom::Second), au(Atom::Second), au(Atom::Ampere)],
        Atom::Siemens | Atom::Farad => seq![
            au(Atom::Kilo),
            au(Atom::Gram),
            au(Atom::Meter),
            au(Atom::Meter),
        ],
        Atom::Watt => seq![au(Atom::Second), au(Atom::Second), au(Atom::Second)],
        Atom::Pascal => seq![au(Atom::Meter), au(Atom::Second), au(Atom::Second)],
        Atom::Henry => seq![
            au(Atom::Second),
            au(Atom::Second),
            au(Atom::Ampere),
            au(Atom::Ampere),
        ],
        _ => Seq::empty(),
    }
}

/// True exactly for the scale-prefix atoms: every SI decimal prefix and
/// every IEC binary prefix. These carry no dimension of their own and only
/// scale the magnitude.
pub open spec fn atom_is_modifier(a: Atom) -> bool {
    match a {
        Atom::Quecto | Atom::Ronto | Atom::Yocto | Atom::Zepto | Atom::Atto | Atom::Femto
            | Atom::Pico | Atom::Nano | Atom::Micro | Atom::Milli | Atom::Centi | Atom::Deci
            | Atom::Hecto | Atom::Kilo | Atom::Mega | Atom::Giga | Atom::Tera | Atom::Peta
            | Atom::Exa | Atom::Zetta | Atom::Yotta | Atom::Ronna | Atom::Quetta | Atom::Kibi
            | Atom::Mebi | Atom::Gibi | Atom::Tebi | Atom::Pebi | Atom::Exbi => true,
        _ => false,
    }
}

/// The tag of an atomic unit.
pub open spec fn atom_of(u: Unit) -> Atom {
    match u {
        Unit::Atomic(a) => a,
        _ => arbitrary(),
    }
}

/// Offsets of a member list folded left to right onto an accumulator, each
/// added with reducing rational addition.
pub open spec fn off_fold(s: Seq<Unit>, acc: (int, int)) -> (int, int)
    decreases s.len(),
{
    if s.len() == 0 {
        acc
    } else {
        let o = atom_offset(atom_of(s[0]));
        off_fold(s.drop_first(), rat_add(acc.0, acc.1, o.0, o.1))
    }
}

/// Slopes of a member list folded onto an accumulator as a raw (unreduced)
/// product; an inverted member divides instead of multiplying.
pub open spec fn slope_fold(s: Seq<Unit>, invert: bool, acc: (int, int)) -> (int, int)
    decreases s.len(),
{
    if s.len() == 0 {
        acc
    } else {
        let sl = atom_slope(atom_of(s[0]));
        let acc2 = if invert {
            (acc.0 * sl.1, acc.1 * sl.0)
        } else {
            (acc.0 * sl.0, acc.1 * sl.1)
        };
        slope_fold(s.drop_first(), invert, acc2)
    }
}

/// The concatenated SI numerators of a list of atomic members.
pub open spec fn tab_num_seq(s: Seq<Unit>) -> Seq<Unit>
    decreases s.len(),
{
    if s.len() == 0 {
        Seq::empty()
    } else {
        atom_si_num(atom_of(s[0])) + tab_num_seq(s.drop_first())
    }
}

/// The concatenated SI denominators of a list of atomic members.
pub open spec fn tab_den_seq(s: Seq<Unit>) -> Seq<Unit>
    decreases s.len(),
{
    if s.len() == 0 {
        Seq::empty()
    } else {
        atom_si_den(atom_of(s[0])) + tab_den_seq(s.drop_first())
    }
}

/// The accumulated offset of a unit's SI conversion: the table entry for an
/// atom; for a compound, the sum over all flattened members, numerator side
/// first.
pub open spec fn si_offset(u: Unit) -> (int, int) {
    if u is Atomic {
        atom_offset(atom_of(u))
    } else {
        off_fold(crate::unit::flat_den(u), off_fold(crate::unit::flat_num(u), (0int, 1int)))
    }
}

/// The accumulated slope of a unit's SI conversion: the table entry for an
/// atom; for a compound, the running product over the flattened numerator
/// and quotient over the flattened denominator, reduced at the end.
pub open spec fn si_slope(u: Unit) -> (int, int) {
    if u is Atomic {
        atom_slope(atom_of(u))
    } else {
        let raw = slope_fold(
            crate::unit::flat_den(u),
            true,
            slope_fold(crate::unit::flat_num(u), false, (1int, 1int)),
        );
        rat_reduce(raw.0, raw.1)
    }
}

/// The SI members of a unit before cancellation.
pub open spec fn si_raw_num(u: Unit) -> Seq<Unit> {
    tab_num_seq(crate::unit::flat_num(u)) + tab_den_seq(crate::unit::flat_den(u))
}

pub open spec fn si_raw_den(u: Unit) -> Seq<Unit> {
    tab_den_seq(crate::unit::flat_num(u)) + tab_num_seq(crate::unit::flat_den(u))
}

/// The canonical SI numerator of a unit: two units are interchangeable
/// exactly when their canonical numerators and denominators agree.
pub open spec fn canon_num(u: Unit) -> Seq<Unit> {
    if u is Atomic {
        atom_si_num(atom_of(u))
    } else {
        cancel(si_raw_num(u), si_raw_den(u)).0
    }
}

pub open spec fn canon_den(u: Unit) -> Seq<Unit> {
    if u is Atomic {
        atom_si_den(atom_of(u))
    } else {
        cancel(si_raw_num(u), si_raw_den(u)).1
    }
}

/// Lists of bare atoms flatten to themselves.
pub proof fn lemma_all_atomic_flat(s: Seq<Unit>)
    requires
        all_atomic(s),
    ensures
        nn_seq(s) == s,
        dd_seq(s) == Seq::<Unit>::empty(),
    decreases s,
{
    if s.len() == 0 {
        assert(nn_seq(s) =~= s);
        assert(dd_seq(s) =~= Seq::<Unit>::empty());
    } else {
        lemma_all_atomic_flat(s.drop_first());
        assert(s[0] is Atomic);
        assert(flat_num(s[0]) =~= seq![s[0]]);
        assert(flat_den(s[0]) =~= Seq::<Unit>::empty());
        assert(nn_seq(s) =~= s);
        assert(dd_seq(s) =~= Seq::<Unit>::empty());
    }
}

/// A flat unit is its own flattening.
pub proof fn lemma_flat_of_flat(u: Unit)
    requires
        is_flat(u),
    ensures
        flat_num(u) == unit_num(u),
        flat_den(u) == unit_den(u),
{
    match u {
        Unit::Atomic(_) => {
            assert(flat_num(u) =~= unit_num(u));
            assert(flat_den(u) =~= unit_den(u));
        }
        Unit::Compound(n, d) => {
            lemma_all_atomic_flat(n@);
            lemma_all_atomic_flat(d@);
            assert(flat_num(u) =~= unit_num(u));
            assert(flat_den(u) =~= unit_den(u));
        }
    }
}

/// Appending one member extends the flattened contributions.
pub proof fn lemma_nn_seq_push(s: Seq<Unit>, x: Unit)
    ensures
        nn_seq(s.push(x)) == nn_seq(s) + flat_num(x),
        dd_seq(s.push(x)) == dd_seq(s) + flat_den(x),
{
    assert(s.push(x) =~= s + seq![x]);
    crate::unit::lemma_nn_seq_concat(s, seq![x]);
    let one = seq![x];
    assert(one.drop_first() =~= Seq::<Unit>::empty());
    assert(nn_seq(Seq::<Unit>::empty()) =~= Seq::<Unit>::empty());
    assert(dd_seq(Seq::<Unit>::empty()) =~= Seq::<Unit>::empty());
    assert(one.len() == 1 && one[0] == x);
    assert(nn_seq(one) == flat_num(one[0]) + nn_seq(one.drop_first()));
    assert(nn_seq(one) =~= flat_num(x));
    assert(dd_seq(one) == flat_den(one[0]) + dd_seq(one.drop_first()));
    assert(dd_seq(one) =~= flat_den(x));
}

/// A unit value is a modifier when it is one of the prefix atoms.
pub open spec fn unit_is_modifier(u: Unit) -> bool {
    u matches Unit::Atomic(a) && atom_is_modifier(a)
}

/// Appends one atom to a member list.
fn pa(v: Vec<Unit>, a: Atom) -> (r: Vec<Unit>)
    ensures
        r@ == v@.push(au(a)),
{
    let mut v = v;
    v.push(Unit::Atomic(a));
    v
}

/// A catalog fraction from two literals, stored raw: the catalog's entries
/// are already in lowest terms with positive denominators.
fn rat_lit(n: i128, d: i128) -> (r: BigRational)
    requires
        d > 0,
    ensures
        r.wf(),
        r.pair() == (n as int, d as int),
{
    BigRational::new_raw(ScalableInteger::from_i128(n), ScalableInteger::from_i128(d))
}

/// The SI expression of an atom, as a collapsed flat unit.
fn si_unit_of(a: Atom) -> (r: Unit)
    ensures
        unit_num(r) == atom_si_num(a),
        unit_den(r) == atom_si_den(a),
        is_collapsed(r),
        is_flat(r),
{
    let r = match a {
        Atom::Newton => {
            let n = pa(pa(pa(Vec::new(), Atom::Kilo), Atom::Gram), Atom::Meter);
            let d = pa(pa(Vec::new(), Atom::Second), Atom::Second);
            Unit::Compound(n, d)
        }
        Atom::Joule => {
            let n = pa(pa(pa(pa(Vec::new(), Atom::Kilo), Atom::Gram), Atom::Meter), Atom::Meter);
            let d = pa(pa(Vec::new(), Atom::Second), Atom::Second);
            Unit::Compound(n, d)
        }
        Atom::Ohm => {
            let n = pa(pa(pa(pa(Vec::new(), Atom::Kilo), Atom::Gram), Atom::Meter), Atom::Meter);
            let d = pa(
                pa(pa(pa(pa(Vec::new(), Atom::Second), Atom::Second), Atom::Second), Atom::Ampere),
                Atom::Ampere,
            );
            Unit::Compound(n, d)
        }
        Atom::Hertz => {
            let d = pa(Vec::new(), Atom::Second);
            Unit::Compound(Vec::new(), d)
        }
        Atom::Volt => {
            let n = pa(pa(pa(pa(Vec::new(), Atom::Kilo), Atom::Gram), Atom::Meter), Atom::Meter);
            let d = pa(
                pa(pa(Vec::new(), Atom::Second), Atom::Second),
                Atom::Second,
            );
            let d = pa(d, Atom::Ampere);
            Unit::Compound(n, d)
        }
        Atom::Hectare => {
            let n = pa(pa(Vec::new(), Atom::Meter), Atom::Meter);
            Unit::Compound(n, Vec::new())
        }
        Atom::Tesla => {
            let n = pa(pa(Vec::new(), Atom::Kilo), Atom::Gram);
            let d = pa(pa(pa(Vec::new(), Atom::Second), Atom::Second), Atom::Ampere);
            Unit::Compound(n, d)
        }
        Atom::Siemens => {
            let n = pa(
                pa(pa(pa(pa(Vec::new(), Atom::Second), Atom::Second), Atom::Second), Atom::Ampere),
                Atom::Ampere,
            );
            let d = pa(pa(pa(pa(Vec::new(), Atom::Kilo), Atom::Gram), Atom::Meter), Atom::Meter);
            Unit::Compound(n, d)
        }
        Atom::Watt => {
            let n = pa(pa(pa(pa(Vec::new(), Atom::Kilo), Atom::Gram), Atom::Meter), Atom::Meter);
            let d = pa(pa(pa(Vec::new(), Atom::Second), Atom::Second), Atom::Second);
            Unit::Compound(n, d)
        }
        Atom::Liter | Atom::CubicInch | Atom::CubicFeet | Atom::CubicYard | Atom::Pint
            | Atom::Quart | Atom::Gallon => {
            let n = pa(pa(pa(Vec::new(), Atom::Meter), Atom::Meter), Atom::Meter);
            Unit::Compound(n, Vec::new())
        }
        Atom::Pascal => {
            let n = pa(pa(Vec::new(), Atom::Kilo), Atom::Gram);
            let d = pa(pa(pa(Vec::new(), Atom::Meter), Atom::Second), Atom::Second);
            Unit::Compound(n, d)
        }
        Atom::Henry => {
            let n = pa(pa(pa(pa(Vec::new(), Atom::Kilo), Atom::Gram), Atom::Meter), Atom::Meter);
            let d = pa(pa(pa(pa(Vec::new(), Atom::Second), Atom::Second), Atom::Ampere), Atom::Ampere);
            Unit::Compound(n, d)
        }
        Atom::Weber => {
            let n = pa(pa(pa(pa(Vec::new(), Atom::Kilo), Atom::Gram), Atom::Meter), Atom::Meter);
            let d = pa(pa(pa(Vec::new(), Atom::Second), Atom::Second), Atom::Ampere);
            Unit::Compound(n, d)
        }
        Atom::Coulomb => {
            let n = pa(pa(Vec::new(), Atom::Second), Atom::Ampere);
            Unit::Compound(n, Vec::new())
        }
        Atom::Farad => {
            let n = pa(
                pa(
                    pa(pa(pa(pa(Vec::new(), Atom::Second), Atom::Second), Atom::Second), Atom::Second),
                    Atom::Ampere,
                ),
                Atom::Ampere,
            );
            let d = pa(pa(pa(pa(Vec::new(), Atom::Kilo), Atom::Gram), Atom::Meter), Atom::Meter);
            Unit::Compound(n, d)
        }
        Atom::Kelvin | Atom::Celsius | Atom::Fahrenheit => Unit::Atomic(Atom::Kelvin),
        Atom::Bit | Atom::Byte => Unit::Atomic(Atom::Bit),
        Atom::Mole => Unit::Atomic(Atom::Mole),
        Atom::Candela => Unit::Atomic(Atom::Candela),
        Atom::Ampere => Unit::Atomic(Atom::Ampere),
        Atom::Meter | Atom::AU | Atom::Inch | Atom::Feet | Atom::Yard | Atom::Mile
            | Atom::NauticalMile | Atom::LightYear | Atom::Parsec => Unit::Atomic(Atom::Meter),
        Atom::Gram | Atom::Tonne | Atom::Dram | Atom::Ounce | Atom::Pound => Unit::Atomic(
            Atom::Gram,
        ),
        Atom::Second | Atom::Minute | Atom::Hour | Atom::Day | Atom::Month | Atom::Year => {
            Unit::Atomic(Atom::Second)
        }
        _ => Unit::Compound(Vec::new(), Vec::new()),
    };
    proof {
        assert(unit_num(r) =~= atom_si_num(a));
        assert(unit_den(r) =~= atom_si_den(a));
    }
    r
}

/// The catalog's conversion triple for one atom: offset, slope, and the SI
/// expression.
pub fn atom_si(a: Atom) -> (r: (BigRational, BigRational, Unit))
    ensures
        r.0.wf(),
        r.0.pair() == atom_offset(a),
        r.1.wf(),
        r.1.pair() == atom_slope(a),
        r.1.numer@ != 0,
        unit_num(r.2) == atom_si_num(a),
        unit_den(r.2) == atom_si_den(a),
        is_collapsed(r.2),
        is_flat(r.2),
{
    let offset = match a {
        Atom::Celsius => rat_lit(5463, 20),
        Atom::Fahrenheit => rat_lit(45967, 100),
        _ => BigRational::zero(),
    };
    let slope = match a {
        Atom::Fahrenheit => rat_lit(13889, 25000),
        Atom::Hectare => rat_lit(10000, 1),
        Atom::Byte => rat_lit(8, 1),
        Atom::Liter => rat_lit(1, 1000),
        Atom::CubicInch => rat_lit(2048383, 125000000000),
        Atom::CubicFeet => rat_lit(55306341, 1953125000),
        Atom::CubicYard => rat_lit(1493271207, 1953125000),
        Atom::Pint => rat_lit(473176473, 1000000000000),
        Atom::Quart => rat_lit(473176473, 500000000000),
        Atom::Gallon => rat_lit(473176473, 125000000000),
        Atom::AU => rat_lit(149597870691, 1),
        Atom::Inch => rat_lit(127, 5000),
        Atom::Feet => rat_lit(381, 1250),
        Atom::Yard => rat_lit(1143, 1250),
        Atom::Mile => rat_lit(201168, 125),
        Atom::NauticalMile => rat_lit(1852, 1),
        Atom::LightYear => rat_lit(9460730472580800, 1),
        Atom::Parsec => rat_lit(30857000000000000, 1),
        Atom::Tonne => rat_lit(1000000, 1),
        Atom::Dram => rat_lit(17718451953, 10000000000),
        Atom::Ounce => rat_lit(45359237, 1600000),
        Atom::Pound => rat_lit(45359237, 100000),
        Atom::Minute => rat_lit(60, 1),
        Atom::Hour => rat_lit(3600, 1),
        Atom::Day => rat_lit(86400, 1),
        Atom::Month => rat_lit(2629746, 1),
        Atom::Year => rat_lit(31557600, 1),
        Atom::Quecto => rat_lit(1, 1000000000000000000000000000000),
        Atom::Ronto => rat_lit(1, 1000000000000000000000000000),
        Atom::Yocto => rat_lit(1, 1000000000000000000000000),
        Atom::Zepto => rat_lit(1, 1000000000000000000000),
        Atom::Atto => rat_lit(1, 1000000000000000000),
        Atom::Femto => rat_lit(1, 1000000000000000),
        Atom::Pico => rat_lit(1, 1000000000000),
        Atom::Nano => rat_lit(1, 1000000000),
        Atom::Micro => rat_lit(1, 1000000),
        Atom::Milli => rat_lit(1, 1000),
        Atom::Centi => rat_lit(1, 100),
        Atom::Deci => rat_lit(1, 10),
        Atom::Hecto => rat_lit(100, 1),
        Atom::Kilo => rat_lit(1000, 1),
        Atom::Mega => rat_lit(1000000, 1),
        Atom::Giga => rat_lit(1000000000, 1),
        Atom::Tera => rat_lit(1000000000000, 1),
        Atom::Peta => rat_lit(1000000000000000, 1),
        Atom::Exa => rat_lit(1000000000000000000, 1),
        Atom::Zetta => rat_lit(1000000000000000000000, 1),
        Atom::Yotta => rat_lit(1000000000000000000000000, 1),
        Atom::Ronna => rat_lit(1000000000000000000000000000, 1),
        Atom::Quetta => rat_lit(1000000000000000000000000000000, 1),
        Atom::Kibi => rat_lit(1024, 1),
        Atom::Mebi => rat_lit(1048576, 1),
        Atom::Gibi => rat_lit(1073741824, 1),
        Atom::Tebi => rat_lit(1099511627776, 1),
        Atom::Pebi => rat_lit(1125899906842624, 1),
        Atom::Exbi => rat_lit(1152921504606846976, 1),
        _ => BigRational::one(),
    };
    let unit = si_unit_of(a);
    (offset, slope, unit)
}

/// The tag of an atomic unit value.
fn atom_of_unit(u: &Unit) -> (r: Atom)
    requires
        *u is Atomic,
    ensures
        r == atom_of(*u),
{
    match u {
        Unit::Atomic(a) => *a,
        Unit::Compound(_, _) => Atom::Meter,
    }
}

impl Unit {
    /// Folds the catalog triples of a flattened member list into the running
    /// offset sum, the raw slope product (`invert` divides instead), and the
    /// list of SI member expressions.
    fn si_accumulate(
        s: Vec<Unit>,
        invert: bool,
        offset: &mut BigRational,
        slope: &mut BigRational,
        out: &mut Vec<Unit>,
    )
        requires
            all_atomic(s@),
            old(offset).wf(),
            old(slope).wf(),
            old(slope).numer@ != 0,
        ensures
            final(offset).wf(),
            final(offset).pair() == off_fold(s@, old(offset).pair()),
            final(slope).wf(),
            final(slope).numer@ != 0,
            final(slope).pair() == slope_fold(s@, invert, old(slope).pair()),
            nn_seq(final(out)@) == nn_seq(old(out)@) + tab_num_seq(s@),
            dd_seq(final(out)@) == dd_seq(old(out)@) + tab_den_seq(s@),
        decreases s@.len(),
    {
        let mut s = s;
        if s.len() == 0 {
            proof {
                assert(nn_seq(out@) =~= nn_seq(out@) + tab_num_seq(s@));
                assert(dd_seq(out@) =~= dd_seq(out@) + tab_den_seq(s@));
            }
            return ;
        }
        let ghost s0 = s@;
        let u = s.remove(0);
        proof {
            assert(s@ =~= s0.drop_first());
        }
        let a = atom_of_unit(&u);
        let (o, sl, si_u) = atom_si(a);
        let new_offset = offset.add(&o);
        *offset = new_offset;
        let new_slope = if invert {
            BigRational::new_raw(slope.numer.mul(&sl.denom), slope.denom.mul(&sl.numer))
        } else {
            BigRational::new_raw(slope.numer.mul(&sl.numer), slope.denom.mul(&sl.denom))
        };
        proof {
            let sn = slope.numer@;
            let sd = slope.denom@;
            assert(new_slope.numer@ != 0 && new_slope.denom@ != 0) by (nonlinear_arith)
                requires
                    sn != 0,
                    sd != 0,
                    sl.numer@ != 0,
                    sl.denom@ != 0,
                    new_slope.numer@ == sn * (if invert {
                        sl.denom@
                    } else {
                        sl.numer@
                    }),
                    new_slope.denom@ == sd * (if invert {
                        sl.numer@
                    } else {
                        sl.denom@
                    }),
            ;
        }
        *slope = new_slope;
        let ghost out0 = out@;
        out.push(si_u);
        proof {
            lemma_nn_seq_push(out0, si_u);
            lemma_flat_of_flat(si_u);
        }
        Self::si_accumulate(s, invert, offset, slope, out);
        proof {
            assert(nn_seq(final(out)@) =~= nn_seq(old(out)@) + tab_num_seq(s0));
            assert(dd_seq(final(out)@) =~= dd_seq(old(out)@) + tab_den_seq(s0));
        }
    }

    /// The affine SI conversion triple of the unit: an offset, a slope, and
    /// the canonical SI expression, such that
    /// `value_in_SI = (value + offset) * slope` holds in the returned unit.
    pub fn to_si_units(&self) -> (r: (BigRational, BigRational, Unit))
        ensures
            r.0.wf(),
            r.0.pair() == si_offset(*self),
            r.1.wf(),
            r.1.pair() == si_slope(*self),
            r.1.numer@ != 0,
            unit_num(r.2) == canon_num(*self),
            unit_den(r.2) == canon_den(*self),
            is_collapsed(r.2),
            is_flat(r.2),
    {
        let ghost whole = *self;
        let f = self.flatten();
        match f {
            Unit::Atomic(_) => {
                let a = atom_of_unit(&f);
                atom_si(a)
            }
            Unit::Compound(num, den) => {
                let ghost fn0 = flat_num(whole);
                let ghost fd0 = flat_den(whole);
                let mut offset = BigRational::zero();
                let mut slope = BigRational::one();
                let mut new_num: Vec<Unit> = Vec::new();
                let mut new_den: Vec<Unit> = Vec::new();
                proof {
                    crate::unit::lemma_flat_atomic(whole);
                }
                Self::si_accumulate(num, false, &mut offset, &mut slope, &mut new_num);
                Self::si_accumulate(den, true, &mut offset, &mut slope, &mut new_den);
                let slope_reduced = slope.reduced();
                proof {
                    if si_slope(whole).0 == 0 {
                        crate::gcd::lemma_int_gcd(slope.numer@, slope.denom@);
                        crate::gcd::lemma_trunc_div_exact(
                            slope.numer@,
                            crate::gcd::int_gcd(slope.numer@, slope.denom@),
                        );
                    }
                }
                let c = Unit::Compound(new_num, new_den);
                proof {
                    assert(nn_seq(Seq::<Unit>::empty()) =~= Seq::<Unit>::empty());
                    assert(dd_seq(Seq::<Unit>::empty()) =~= Seq::<Unit>::empty());
                    assert(flat_num(c) =~= si_raw_num(whole));
                    assert(flat_den(c) =~= si_raw_den(whole));
                }
                let unit = c.simplify();
                (offset, slope_reduced, unit)
            }
        }
    }

    /// Whether the unit is a decimal or binary scale prefix.
    pub fn is_modifier(&self) -> (r: bool)
        ensures
            r == unit_is_modifier(*self),
    {
        match self {
            Unit::Atomic(a) => match a {
                Atom::Quecto | Atom::Ronto | Atom::Yocto | Atom::Zepto | Atom::Atto
                    | Atom::Femto | Atom::Pico | Atom::Nano | Atom::Micro | Atom::Milli
                    | Atom::Centi | Atom::Deci | Atom::Hecto | Atom::Kilo | Atom::Mega
                    | Atom::Giga | Atom::Tera | Atom::Peta | Atom::Exa | Atom::Zetta
                    | Atom::Yotta | Atom::Ronna | Atom::Quetta | Atom::Kibi | Atom::Mebi
                    | Atom::Gibi | Atom::Tebi | Atom::Pebi | Atom::Exbi => true,
                _ => false,
            },
            _ => false,
        }
    }
}

} // verus!
