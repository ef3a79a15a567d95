//! Textual rendering: decimal strings for the numeric types, and symbol and
//! name strings for units.

use vstd::prelude::*;
use vstd::string::StringExecFns;
use crate::scalable_integer::ScalableInteger;
use crate::rational::BigRational;
use crate::bigint::{big_value, big_to_string};
use crate::unit::{Atom, Unit, unit_size, seq_size, lemma_unit_size_pos};
use crate::catalog::{unit_is_modifier, atom_is_modifier};
use indexmap::IndexMap;

verus! {

#[verifier::external_type_specification]
#[verifier::external_body]
#[verifier::reject_recursive_types(K)]
#[verifier::reject_recursive_types(V)]
#[verifier::reject_recursive_types(S)]
pub struct ExIndexMap<K, V, S>(IndexMap<K, V, S>);

/// The entries that an insertion-ordered count map holds, in order.
pub uninterp spec fn im_view(m: IndexMap<String, usize>) -> Seq<(Seq<char>, usize)>;

/// Relies on `indexmap::IndexMap::new`: the new map is empty.
#[verifier::external_body]
fn im_new() -> (r: IndexMap<String, usize>)
    ensures
        im_view(r) == Seq::<(Seq<char>, usize)>::empty(),
{
    IndexMap::new()
}

/// Relies on `indexmap::IndexMap::get`: the value stored under the key when
/// the key is present, and nothing otherwise.
#[verifier::external_body]
fn im_get(m: &IndexMap<String, usize>, k: &String) -> (r: Option<usize>)
    ensures
        match r {
            Some(v) => exists|j: int|
                0 <= j < im_view(*m).len() && #[trigger] im_view(*m)[j] == (k@, v),
            None => forall|j: int| 0 <= j < im_view(*m).len() ==> (#[trigger] im_view(*m)[j]).0 != k@,
        },
{
    m.get(k).copied()
}

/// Relies on `indexmap::IndexMap::insert`: a fresh key is appended at the
/// end of the insertion order; an existing key keeps its position and only
/// its value is replaced.
#[verifier::external_body]
fn im_insert(m: &mut IndexMap<String, usize>, k: String, v: usize)
    ensures
        (forall|j: int| 0 <= j < im_view(*old(m)).len() ==> (#[trigger] im_view(*old(m))[j]).0 != k@)
            ==> im_view(*final(m)) == im_view(*old(m)).push((k@, v)),
        (exists|j: int|
            0 <= j < im_view(*old(m)).len() && (#[trigger] im_view(*old(m))[j]).0 == k@) ==> exists|
            j: int,
        |
            0 <= j < im_view(*old(m)).len() && (#[trigger] im_view(*old(m))[j]).0 == k@ && im_view(
                *final(m),
            ) == im_view(*old(m)).update(j, (k@, v)),
{
    m.insert(k, v);
}

/// Relies on the iteration order of `indexmap::IndexMap`: entries come out
/// in insertion order.
#[verifier::external_body]
fn im_entries(m: IndexMap<String, usize>) -> (r: Vec<(String, usize)>)
    ensures
        r@.len() == im_view(m).len(),
        forall|j: int|
            0 <= j < r@.len() ==> (#[trigger] r@[j]).0@ == im_view(m)[j].0 && r@[j].1 == im_view(
                m,
            )[j].1,
{
    m.into_iter().collect()
}

/// Relies on `String: FromIterator<char>`: the characters become the string.
#[verifier::external_body]
fn string_from_chars(v: &Vec<char>) -> (r: String)
    ensures
        r@ == v@,
{
    String::from_iter(v.iter().copied())
}

/// Relies on `str::chars` collected with `Vec: FromIterator<char>`: the
/// string's characters, in order.
#[verifier::external_body]
fn string_to_chars(s: &str) -> (r: Vec<char>)
    ensures
        r@ == s@,
{
    Vec::from_iter(s.chars())
}

/// The decimal digit characters.
pub open spec fn digit_char(d: int) -> char {
    if d == 0 {
        '0'
    } else if d == 1 {
        '1'
    } else if d == 2 {
        '2'
    } else if d == 3 {
        '3'
    } else if d == 4 {
        '4'
    } else if d == 5 {
        '5'
    } else if d == 6 {
        '6'
    } else if d == 7 {
        '7'
    } else if d == 8 {
        '8'
    } else {
        '9'
    }
}

/// The decimal digits of a non-negative integer, most significant first,
/// with no leading zeros.
pub open spec fn dec_str(n: int) -> Seq<char>
    decreases n,
{
    if n < 10 {
        seq![digit_char(n)]
    } else {
        dec_str(n / 10).push(digit_char(n % 10))
    }
}

/// The decimal rendering of an integer, with a leading minus sign when
/// negative.
pub open spec fn int_str(v: int) -> Seq<char> {
    if v < 0 {
        seq!['-'] + dec_str(-v)
    } else {
        dec_str(v)
    }
}

/// The rendering of a fraction: the bare numerator over a denominator of
/// one, and `numerator/denominator` otherwise.
pub open spec fn rat_str(n: int, d: int) -> Seq<char> {
    if d == 1 {
        int_str(n)
    } else {
        int_str(n) + seq!['/'] + int_str(d)
    }
}

/// One decimal digit as a string slice.
fn digit_str(d: u128) -> (r: &'static str)
    requires
        d < 10,
    ensures
        r@ == seq![digit_char(d as int)],
{
    let r: &'static str = match d {
        0u128 => "0",
        1u128 => "1",
        2u128 => "2",
        3u128 => "3",
        4u128 => "4",
        5u128 => "5",
        6u128 => "6",
        7u128 => "7",
        8u128 => "8",
        _ => "9",
    };
    proof {
        reveal_strlit("0");
        reveal_strlit("1");
        reveal_strlit("2");
        reveal_strlit("3");
        reveal_strlit("4");
        reveal_strlit("5");
        reveal_strlit("6");
        reveal_strlit("7");
        reveal_strlit("8");
        reveal_strlit("9");
        assert(r@ =~= seq![digit_char(d as int)]);
    }
    r
}

/// The decimal string of an unsigned 128-bit value.
pub fn u128_dec_string(n: u128) -> (r: String)
    ensures
        r@ == dec_str(n as int),
    decreases n,
{
    if n < 10 {
        String::from_str(digit_str(n))
    } else {
        let mut s = u128_dec_string(n / 10);
        s.append(digit_str(n % 10));
        proof {
            assert(s@ =~= dec_str(n as int));
        }
        s
    }
}

/// The decimal string of a `usize` count.
pub fn usize_dec_string(n: usize) -> (r: String)
    ensures
        r@ == dec_str(n as int),
{
    u128_dec_string(n as u128)
}

/// The absolute value of an `i128`, exact even at the minimum.
fn i128_magnitude(v: i128) -> (r: u128)
    ensures
        r == crate::gcd::abs_int(v as int),
{
    if v >= 0 {
        v as u128
    } else {
        (-(v + 1)) as u128 + 1
    }
}

impl ScalableInteger {
    /// The decimal rendering of the value, whatever its tier.
    pub fn to_decimal_string(&self) -> (r: String)
        ensures
            r@ == int_str(self@),
    {
        match self {
            ScalableInteger::Single(n) => Self::i128_string(*n as i128),
            ScalableInteger::Double(n) => Self::i128_string(*n),
            ScalableInteger::Big(b) => big_to_string(b),
        }
    }

    fn i128_string(v: i128) -> (r: String)
        ensures
            r@ == int_str(v as int),
    {
        let mag = u128_dec_string(i128_magnitude(v));
        if v < 0 {
            let mut s = String::from_str("-");
            proof {
                reveal_strlit("-");
                assert(s@ =~= seq!['-']);
            }
            s.append(mag.as_str());
            s
        } else {
            mag
        }
    }
}

impl BigRational {
    /// The decimal rendering of the fraction: the numerator alone over a
    /// denominator of one, and `numerator/denominator` otherwise.
    pub fn to_display_string(&self) -> (r: String)
        requires
            self.numer.inv(),
            self.denom.inv(),
        ensures
            r@ == rat_str(self.numer@, self.denom@),
    {
        if self.denom.eq_value(&ScalableInteger::one()) {
            self.numer.to_decimal_string()
        } else {
            let mut s = self.numer.to_decimal_string();
            s.append("/");
            proof {
                reveal_strlit("/");
                assert(s@ =~= int_str(self.numer@) + seq!['/']);
            }
            s.append(self.denom.to_decimal_string().as_str());
            s
        }
    }
}

/// The fixed symbol of an atomic unit.
pub open spec fn atom_symbol(a: Atom) -> Seq<char> {
    match a {
        Atom::Newton => "N"@,
        Atom::Joule => "J"@,
        Atom::Ohm => "Ω"@,
        Atom::Hertz => "Hz"@,
        Atom::Volt => "V"@,
        Atom::Kelvin => "K"@,
        Atom::Celsius => "°C"@,
        Atom::Fahrenheit => "°F"@,
        Atom::Hectare => "ha"@,
        Atom::Tesla => "T"@,
        Atom::Bit => "b"@,
        Atom::Byte => "B"@,
        Atom::Siemens => "S"@,
        Atom::Watt => "W"@,
        Atom::Liter => "L"@,
        Atom::CubicInch => "in^3"@,
        Atom::CubicFeet => "ft^3"@,
        Atom::CubicYard => "yd^3"@,
        Atom::Pint => "pt"@,
        Atom::Quart => "qt"@,
        Atom::Gallon => "gal"@,
        Atom::Pascal => "Pa"@,
        Atom::Henry => "H"@,
        Atom::Mole => "mol"@,
        Atom::Candela => "cd"@,
        Atom::Ampere => "A"@,
        Atom::Weber => "Wb"@,
        Atom::Meter => "m"@,
        Atom::AU => "AU"@,
        Atom::Inch => "in"@,
        Atom::Feet => "ft"@,
        Atom::Yard => "yd"@,
        Atom::Mile => "mi"@,
        Atom::NauticalMile => "nmi"@,
        Atom::LightYear => "ly"@,
        Atom::Parsec => "pc"@,
        Atom::Coulomb => "C"@,
        Atom::Gram => "g"@,
        Atom::Tonne => "t"@,
        Atom::Dram => "dr"@,
        Atom::Ounce => "oz"@,
        Atom::Pound => "lb"@,
        Atom::Farad => "F"@,
        Atom::Second => "s"@,
        Atom::Minute => "min"@,
        Atom::Hour => "h"@,
        Atom::Day => "d"@,
        Atom::Month => "mo"@,
        Atom::Year => "yr"@,
        Atom::Quecto => "q"@,
        Atom::Ronto => "r"@,
        Atom::Yocto => "y"@,
        Atom::Zepto => "z"@,
        Atom::Atto => "a"@,
        Atom::Femto => "f"@,
        Atom::Pico => "p"@,
        Atom::Nano => "n"@,
        Atom::Micro => "µ"@,
        Atom::Milli => "m"@,
        Atom::Centi => "c"@,
        Atom::Deci => "d"@,
        Atom::Hecto => "h"@,
        Atom::Kilo => "k"@,
        Atom::Mega => "M"@,
        Atom::Giga => "G"@,
        Atom::Tera => "T"@,
        Atom::Peta => "P"@,
        Atom::Exa => "E"@,
        Atom::Zetta => "Z"@,
        Atom::Yotta => "Y"@,
        Atom::Ronna => "R"@,
        Atom::Quetta => "Q"@,
        Atom::Kibi => "Ki"@,
        Atom::Mebi => "Mi"@,
        Atom::Gibi => "Gi"@,
        Atom::Tebi => "Ti"@,
        Atom::Pebi => "Pi"@,
        Atom::Exbi => "Ei"@,
    }
}

/// The fixed display name of an atomic unit.
pub open spec fn atom_name(a: Atom) -> Seq<char> {
    match a {
        Atom::Newton => "newton"@,
        Atom::Joule => "joule"@,
        Atom::Ohm => "ohm"@,
        Atom::Hertz => "herzt"@,
        Atom::Volt => "volt"@,
        Atom::Kelvin => "kelvin"@,
        Atom::Celsius => "celsius"@,
        Atom::Fahrenheit => "fahrenheit"@,
        Atom::Hectare => "hectare"@,
        Atom::Tesla => "tesla"@,
        Atom::Bit => "bit"@,
        Atom::Byte => "byte"@,
        Atom::Siemens => "siemens"@,
        Atom::Watt => "watt"@,
        Atom::Liter => "liter"@,
        Atom::CubicInch => "cubic inch"@,
        Atom::CubicFeet => "cubic feet"@,
        Atom::CubicYard => "cubic yard"@,
        Atom::Pint => "pint"@,
        Atom::Quart => "quart"@,
        Atom::Gallon => "gallon"@,
        Atom::Pascal => "pascal"@,
        Atom::Henry => "henry"@,
        Atom::Mole => "mole"@,
        Atom::Candela => "candela"@,
        Atom::Ampere => "ampere"@,
        Atom::Weber => "weber"@,
        Atom::Meter => "meter"@,
        Atom::AU => "astronomical unit"@,
        Atom::Inch => "inch"@,
        Atom::Feet => "feet"@,
        Atom::Yard => "yard"@,
        Atom::Mile => "mile"@,
        Atom::NauticalMile => "nautical mile"@,
        Atom::LightYear => "light year"@,
        Atom::Parsec => "parsec"@,
        Atom::Coulomb => "coulomb"@,
        Atom::Gram => "gram"@,
        Atom::Tonne => "tonne"@,
        Atom::Dram => "dram"@,
        Atom::Ounce => "ounce"@,
        Atom::Pound => "pound"@,
        Atom::Farad => "farad"@,
        Atom::Second => "second"@,
        Atom::Minute => "minute"@,
        Atom::Hour => "hour"@,
        Atom::Day => "day"@,
        Atom::Month => "month"@,
        Atom::Year => "year"@,
        Atom::Quecto => "quecto"@,
        Atom::Ronto => "ronto"@,
        Atom::Yocto => "yocto"@,
        Atom::Zepto => "zepto"@,
        Atom::Atto => "atto"@,
        Atom::Femto => "femto"@,
        Atom::Pico => "pico"@,
        Atom::Nano => "nano"@,
        Atom::Micro => "micro"@,
        Atom::Milli => "milli"@,
        Atom::Centi => "centi"@,
        Atom::Deci => "deci"@,
        Atom::Hecto => "hecto"@,
        Atom::Kilo => "kilo"@,
        Atom::Mega => "mega"@,
        Atom::Giga => "giga"@,
        Atom::Tera => "tera"@,
        Atom::Peta => "peta"@,
        Atom::Exa => "exa"@,
        Atom::Zetta => "zetta"@,
        Atom::Yotta => "yotta"@,
        Atom::Ronna => "ronna"@,
        Atom::Quetta => "quetta"@,
        Atom::Kibi => "kibi"@,
        Atom::Mebi => "mebi"@,
        Atom::Gibi => "gibi"@,
        Atom::Tebi => "tebi"@,
        Atom::Pebi => "pebi"@,
        Atom::Exbi => "exbi"@,
    }
}

/// The symbol of an atomic unit as a string.
fn atom_symbol_string(a: Atom) -> (r: String)
    ensures
        r@ == atom_symbol(a),
{
    match a {
        Atom::Newton => String::from_str("N"),
        Atom::Joule => String::from_str("J"),
        Atom::Ohm => String::from_str("Ω"),
        Atom::Hertz => String::from_str("Hz"),
        Atom::Volt => String::from_str("V"),
        Atom::Kelvin => String::from_str("K"),
        Atom::Celsius => String::from_str("°C"),
        Atom::Fahrenheit => String::from_str("°F"),
        Atom::Hectare => String::from_str("ha"),
        Atom::Tesla => String::from_str("T"),
        Atom::Bit => String::from_str("b"),
        Atom::Byte => String::from_str("B"),
        Atom::Siemens => String::from_str("S"),
        Atom::Watt => String::from_str("W"),
        Atom::Liter => String::from_str("L"),
        Atom::CubicInch => String::from_str("in^3"),
        Atom::CubicFeet => String::from_str("ft^3"),
        Atom::CubicYard => String::from_str("yd^3"),
        Atom::Pint => String::from_str("pt"),
        Atom::Quart => String::from_str("qt"),
        Atom::Gallon => String::from_str("gal"),
        Atom::Pascal => String::from_str("Pa"),
        Atom::Henry => String::from_str("H"),
        Atom::Mole => String::from_str("mol"),
        Atom::Candela => String::from_str("cd"),
        Atom::Ampere => String::from_str("A"),
        Atom::Weber => String::from_str("Wb"),
        Atom::Meter => String::from_str("m"),
        Atom::AU => String::from_str("AU"),
        Atom::Inch => String::from_str("in"),
        Atom::Feet => String::from_str("ft"),
        Atom::Yard => String::from_str("yd"),
        Atom::Mile => String::from_str("mi"),
        Atom::NauticalMile => String::from_str("nmi"),
        Atom::LightYear => String::from_str("ly"),
        Atom::Parsec => String::from_str("pc"),
        Atom::Coulomb => String::from_str("C"),
        Atom::Gram => String::from_str("g"),
        Atom::Tonne => String::from_str("t"),
        Atom::Dram => String::from_str("dr"),
        Atom::Ounce => String::from_str("oz"),
        Atom::Pound => String::from_str("lb"),
        Atom::Farad => String::from_str("F"),
        Atom::Second => String::from_str("s"),
        Atom::Minute => String::from_str("min"),
        Atom::Hour => String::from_str("h"),
        Atom::Day => String::from_str("d"),
        Atom::Month => String::from_str("mo"),
        Atom::Year => String::from_str("yr"),
        Atom::Quecto => String::from_str("q"),
        Atom::Ronto => String::from_str("r"),
        Atom::Yocto => String::from_str("y"),
        Atom::Zepto => String::from_str("z"),
        Atom::Atto => String::from_str("a"),
        Atom::Femto => String::from_str("f"),
        Atom::Pico => String::from_str("p"),
        Atom::Nano => String::from_str("n"),
        Atom::Micro => String::from_str("µ"),
        Atom::Milli => String::from_str("m"),
        Atom::Centi => String::from_str("c"),
        Atom::Deci => String::from_str("d"),
        Atom::Hecto => String::from_str("h"),
        Atom::Kilo => String::from_str("k"),
        Atom::Mega => String::from_str("M"),
        Atom::Giga => String::from_str("G"),
        Atom::Tera => String::from_str("T"),
        Atom::Peta => String::from_str("P"),
        Atom::Exa => String::from_str("E"),
        Atom::Zetta => String::from_str("Z"),
        Atom::Yotta => String::from_str("Y"),
        Atom::Ronna => String::from_str("R"),
        Atom::Quetta => String::from_str("Q"),
        Atom::Kibi => String::from_str("Ki"),
        Atom::Mebi => String::from_str("Mi"),
        Atom::Gibi => String::from_str("Gi"),
        Atom::Tebi => String::from_str("Ti"),
        Atom::Pebi => String::from_str("Pi"),
        Atom::Exbi => String::from_str("Ei"),
    }
}

/// The display name of an atomic unit as a string.
fn atom_name_string(a: Atom) -> (r: String)
    ensures
        r@ == atom_name(a),
{
    match a {
        Atom::Newton => String::from_str("newton"),
        Atom::Joule => String::from_str("joule"),
        Atom::Ohm => String::from_str("ohm"),
        Atom::Hertz => String::from_str("herzt"),
        Atom::Volt => String::from_str("volt"),
        Atom::Kelvin => String::from_str("kelvin"),
        Atom::Celsius => String::from_str("celsius"),
        Atom::Fahrenheit => String::from_str("fahrenheit"),
        Atom::Hectare => String::from_str("hectare"),
        Atom::Tesla => String::from_str("tesla"),
        Atom::Bit => String::from_str("bit"),
        Atom::Byte => String::from_str("byte"),
        Atom::Siemens => String::from_str("siemens"),
        Atom::Watt => String::from_str("watt"),
        Atom::Liter => String::from_str("liter"),
        Atom::CubicInch => String::from_str("cubic inch"),
        Atom::CubicFeet => String::from_str("cubic feet"),
        Atom::CubicYard => String::from_str("cubic yard"),
        Atom::Pint => String::from_str("pint"),
        Atom::Quart => String::from_str("quart"),
        Atom::Gallon => String::from_str("gallon"),
        Atom::Pascal => String::from_str("pascal"),
        Atom::Henry => String::from_str("henry"),
        Atom::Mole => String::from_str("mole"),
        Atom::Candela => String::from_str("candela"),
        Atom::Ampere => String::from_str("ampere"),
        Atom::Weber => String::from_str("weber"),
        Atom::Meter => String::from_str("meter"),
        Atom::AU => String::from_str("astronomical unit"),
        Atom::Inch => String::from_str("inch"),
        Atom::Feet => String::from_str("feet"),
        Atom::Yard => String::from_str("yard"),
        Atom::Mile => String::from_str("mile"),
        Atom::NauticalMile => String::from_str("nautical mile"),
        Atom::LightYear => String::from_str("light year"),
        Atom::Parsec => String::from_str("parsec"),
        Atom::Coulomb => String::from_str("coulomb"),
        Atom::Gram => String::from_str("gram"),
        Atom::Tonne => String::from_str("tonne"),
        Atom::Dram => String::from_str("dram"),
        Atom::Ounce => String::from_str("ounce"),
        Atom::Pound => String::from_str("pound"),
        Atom::Farad => String::from_str("farad"),
        Atom::Second => String::from_str("second"),
        Atom::Minute => String::from_str("minute"),
        Atom::Hour => String::from_str("hour"),
        Atom::Day => String::from_str("day"),
        Atom::Month => String::from_str("month"),
        Atom::Year => String::from_str("year"),
        Atom::Quecto => String::from_str("quecto"),
        Atom::Ronto => String::from_str("ronto"),
        Atom::Yocto => String::from_str("yocto"),
        Atom::Zepto => String::from_str("zepto"),
        Atom::Atto => String::from_str("atto"),
        Atom::Femto => String::from_str("femto"),
        Atom::Pico => String::from_str("pico"),
        Atom::Nano => String::from_str("nano"),
        Atom::Micro => String::from_str("micro"),
        Atom::Milli => String::from_str("milli"),
        Atom::Centi => String::from_str("centi"),
        Atom::Deci => String::from_str("deci"),
        Atom::Hecto => String::from_str("hecto"),
        Atom::Kilo => String::from_str("kilo"),
        Atom::Mega => String::from_str("mega"),
        Atom::Giga => String::from_str("giga"),
        Atom::Tera => String::from_str("tera"),
        Atom::Peta => String::from_str("peta"),
        Atom::Exa => String::from_str("exa"),
        Atom::Zetta => String::from_str("zetta"),
        Atom::Yotta => String::from_str("yotta"),
        Atom::Ronna => String::from_str("ronna"),
        Atom::Quetta => String::from_str("quetta"),
        Atom::Kibi => String::from_str("kibi"),
        Atom::Mebi => String::from_str("mebi"),
        Atom::Gibi => String::from_str("gibi"),
        Atom::Tebi => String::from_str("tebi"),
        Atom::Pebi => String::from_str("pebi"),
        Atom::Exbi => String::from_str("exbi"),
    }
}


/// The position of the first entry with key `k`, or `-1`.
pub open spec fn key_index(cs: Seq<(Seq<char>, int)>, k: Seq<char>) -> int
    decreases cs.len(),
{
    if cs.len() == 0 {
        -1
    } else if cs[0].0 == k {
        0
    } else {
        let r = key_index(cs.drop_first(), k);
        if r < 0 {
            -1
        } else {
            r + 1
        }
    }
}

/// Counting one more occurrence of `k`: an existing entry grows in place,
/// a fresh key is appended with count one.
pub open spec fn bump(cs: Seq<(Seq<char>, int)>, k: Seq<char>) -> Seq<(Seq<char>, int)> {
    let i = key_index(cs, k);
    if i >= 0 {
        cs.update(i, (k, cs[i].1 + 1))
    } else {
        cs.push((k, 1int))
    }
}

/// The insertion-ordered occurrence counts of a list of rendered strings.
pub open spec fn counts_of(syms: Seq<Seq<char>>) -> Seq<(Seq<char>, int)>
    decreases syms.len(),
{
    if syms.len() == 0 {
        Seq::empty()
    } else {
        bump(counts_of(syms.drop_last()), syms.last())
    }
}

/// A count map's entries agree with a specification-level count list.
pub open spec fn counts_match(a: Seq<(Seq<char>, usize)>, b: Seq<(Seq<char>, int)>) -> bool {
    &&& a.len() == b.len()
    &&& forall|i: int|
        0 <= i < a.len() ==> (#[trigger] a[i]).0 == b[i].0 && a[i].1 as int == b[i].1
}

pub open spec fn keys_distinct(cs: Seq<(Seq<char>, int)>) -> bool {
    forall|i: int, j: int| 0 <= i < j < cs.len() ==> (#[trigger] cs[i]).0 != (#[trigger] cs[j]).0
}

proof fn lemma_key_index_props(cs: Seq<(Seq<char>, int)>, k: Seq<char>)
    ensures
        key_index(cs, k) == -1 ==> (forall|i: int| 0 <= i < cs.len() ==> (#[trigger] cs[i]).0 != k),
        key_index(cs, k) >= 0 ==> 0 <= key_index(cs, k) < cs.len() && cs[key_index(cs, k)].0 == k
            && (forall|i: int| 0 <= i < key_index(cs, k) ==> (#[trigger] cs[i]).0 != k),
        (exists|i: int| 0 <= i < cs.len() && (#[trigger] cs[i]).0 == k) ==> key_index(cs, k) >= 0,
    decreases cs.len(),
{
    if cs.len() == 0 {
    } else if cs[0].0 == k {
    } else {
        lemma_key_index_props(cs.drop_first(), k);
        let t = cs.drop_first();
        assert(forall|i: int| 1 <= i < cs.len() ==> cs[i] == t[i - 1]);
        if key_index(cs, k) >= 0 {
            let r = key_index(t, k);
            assert(cs[r + 1] == t[r]);
        }
        if exists|i: int| 0 <= i < cs.len() && (#[trigger] cs[i]).0 == k {
            let w = choose|i: int| 0 <= i < cs.len() && (#[trigger] cs[i]).0 == k;
            assert(t[w - 1] == cs[w]);
        }
    }
}

/// Counting keeps keys distinct and every count between one and the number
/// counted.
proof fn lemma_counts_of_wf(syms: Seq<Seq<char>>)
    ensures
        keys_distinct(counts_of(syms)),
        counts_of(syms).len() <= syms.len(),
        forall|i: int|
            0 <= i < counts_of(syms).len() ==> 1 <= (#[trigger] counts_of(syms)[i]).1 <= syms.len(),
    decreases syms.len(),
{
    if syms.len() == 0 {
    } else {
        let pre = counts_of(syms.drop_last());
        lemma_counts_of_wf(syms.drop_last());
        let k = syms.last();
        lemma_key_index_props(pre, k);
        let i = key_index(pre, k);
        if i >= 0 {
            let now = pre.update(i, (k, pre[i].1 + 1));
            assert forall|p: int, q: int| 0 <= p < q < now.len() implies (#[trigger] now[p]).0 != (
            #[trigger] now[q]).0 by {
                assert(now[p].0 == pre[p].0 && now[q].0 == pre[q].0);
            }
        } else {
            let now = pre.push((k, 1int));
            assert forall|p: int, q: int| 0 <= p < q < now.len() implies (#[trigger] now[p]).0 != (
            #[trigger] now[q]).0 by {
                if q == now.len() - 1 {
                    assert(now[p].0 == pre[p].0);
                } else {
                    assert(now[p].0 == pre[p].0 && now[q].0 == pre[q].0);
                }
            }
        }
    }
}

/// One rendered term of a symbol string: the symbol, with an exponent
/// suffix when it repeats.
pub open spec fn sym_piece(e: (Seq<char>, int)) -> Seq<char> {
    if e.1 > 1 {
        e.0 + "^"@ + dec_str(e.1)
    } else {
        e.0
    }
}

/// The grouped terms of one side of a symbol, joined directly.
pub open spec fn fmt_sym_counts(cs: Seq<(Seq<char>, int)>) -> Seq<char>
    decreases cs.len(),
{
    if cs.len() == 0 {
        Seq::empty()
    } else {
        fmt_sym_counts(cs.drop_last()) + sym_piece(cs.last())
    }
}

/// One rendered term of a name string: squares and cubes get words, higher
/// powers a phrase, and a single occurrence stands alone.
pub open spec fn name_piece(e: (Seq<char>, int)) -> Seq<char> {
    if e.1 > 3 {
        e.0 + " to the "@ + dec_str(e.1)
    } else if e.1 == 3 {
        "cubic "@ + e.0
    } else if e.1 == 2 {
        "square "@ + e.0
    } else {
        e.0
    }
}

pub open spec fn fmt_name_counts(cs: Seq<(Seq<char>, int)>) -> Seq<char>
    decreases cs.len(),
{
    if cs.len() == 0 {
        Seq::empty()
    } else {
        fmt_name_counts(cs.drop_last()) + name_piece(cs.last())
    }
}

/// Trailing spaces removed.
pub open spec fn trim_spaces(s: Seq<char>) -> Seq<char>
    decreases s.len(),
{
    if s.len() > 0 && s.last() == ' ' {
        trim_spaces(s.drop_last())
    } else {
        s
    }
}

/// The symbol of a unit: an atom's fixed symbol; for a compound, members
/// grouped by rendered symbol in first-seen order with `^`-exponents,
/// numerator joined directly, then a `/` and the denominator, an empty
/// numerator rendered as a reciprocal `1/...`.
pub open spec fn unit_symbol(u: Unit) -> Seq<char>
    decreases u,
{
    match u {
        Unit::Atomic(a) => atom_symbol(a),
        Unit::Compound(n, d) => {
            if n@.len() == 0 && d@.len() == 0 {
                Seq::empty()
            } else {
                let ns = fmt_sym_counts(counts_of(syms_of(n@)));
                let ds = fmt_sym_counts(counts_of(syms_of(d@)));
                if ns.len() == 0 {
                    "1/"@ + ds
                } else if ds.len() == 0 {
                    ns
                } else {
                    ns + "/"@ + ds
                }
            }
        }
    }
}

/// The rendered symbols of a member list, in order.
pub open spec fn syms_of(s: Seq<Unit>) -> Seq<Seq<char>>
    decreases s,
{
    if s.len() == 0 {
        Seq::empty()
    } else {
        syms_of(s.drop_last()).push(unit_symbol(s.last()))
    }
}

/// The counting key of a member in a name: its rendered name, with a
/// separating space unless the member is a bare prefix.
pub open spec fn name_key(u: Unit) -> Seq<char>
    decreases u, 1int,
{
    if unit_is_modifier(u) {
        unit_name(u)
    } else {
        unit_name(u) + " "@
    }
}

/// The display name of a unit, trailing spaces trimmed: an atom's fixed
/// name; for a compound, members grouped by key with square/cubic/power
/// phrases, and a denominator introduced by `per` (or `reciprocal` when the
/// numerator is empty).
pub open spec fn unit_name(u: Unit) -> Seq<char>
    decreases u, 0int,
{
    match u {
        Unit::Atomic(a) => atom_name(a),
        Unit::Compound(n, d) => {
            if n@.len() == 0 && d@.len() == 0 {
                Seq::empty()
            } else {
                let ns = fmt_name_counts(counts_of(keys_of(n@)));
                let ds = fmt_name_counts(counts_of(keys_of(d@)));
                let whole = if ns.len() == 0 {
                    "reciprocal "@ + ds
                } else if ds.len() == 0 {
                    ns
                } else {
                    ns + "per "@ + ds
                };
                trim_spaces(whole)
            }
        }
    }
}

/// The counting keys of a member list, in order.
pub open spec fn keys_of(s: Seq<Unit>) -> Seq<Seq<char>>
    decreases s, 2int,
{
    if s.len() == 0 {
        Seq::empty()
    } else {
        keys_of(s.drop_last()).push(name_key(s.last()))
    }
}

proof fn lemma_member_size(s: Seq<Unit>, i: int)
    requires
        0 <= i < s.len(),
    ensures
        unit_size(s[i]) <= seq_size(s),
    decreases s.len(),
{
    if i == 0 {
    } else {
        lemma_member_size(s.drop_first(), i - 1);
    }
}

proof fn lemma_syms_len(s: Seq<Unit>)
    ensures
        syms_of(s).len() == s.len(),
        keys_of(s).len() == s.len(),
    decreases s.len(),
{
    if s.len() == 0 {
    } else {
        lemma_syms_len(s.drop_last());
    }
}

/// Counts one more occurrence of the key `k` in the map.
fn bump_count(
    m: &mut IndexMap<String, usize>,
    k: String,
    Ghost(pre): Ghost<Seq<(Seq<char>, int)>>,
    Ghost(bound): Ghost<int>,
)
    requires
        counts_match(im_view(*old(m)), pre),
        keys_distinct(pre),
        forall|i: int| 0 <= i < pre.len() ==> (#[trigger] pre[i]).1 <= bound,
        0 <= bound,
        bound + 1 <= usize::MAX,
    ensures
        counts_match(im_view(*final(m)), bump(pre, k@)),
{
    proof {
        lemma_key_index_props(pre, k@);
    }
    match im_get(m, &k) {
        Some(c) => {
            proof {
                let j = choose|j: int|
                    0 <= j < im_view(*m).len() && #[trigger] im_view(*m)[j] == (k@, c);
                assert(pre[j].0 == k@ && pre[j].1 == c as int);
                let ki = key_index(pre, k@);
                assert(ki >= 0);
                assert(pre[ki].0 == k@);
                assert(ki == j);
            }
            let ghost ki = key_index(pre, k@);
            im_insert(m, k, c + 1);
            proof {
                let ov = im_view(*old(m));
                let j2 = choose|j2: int|
                    0 <= j2 < ov.len() && (#[trigger] ov[j2]).0 == k@ && im_view(*m) == ov.update(
                        j2,
                        (k@, (c + 1) as usize),
                    );
                assert(pre[j2].0 == k@);
                assert(j2 == ki);
                let target = bump(pre, k@);
                assert(target == pre.update(ki, (k@, pre[ki].1 + 1)));
                assert forall|i: int|
                    0 <= i < im_view(*m).len() implies (#[trigger] im_view(*m)[i]).0
                    == target[i].0 && im_view(*m)[i].1 as int == target[i].1 by {
                    if i != ki {
                        assert(im_view(*m)[i] == ov[i]);
                        assert(target[i] == pre[i]);
                    }
                }
            }
        }
        None => {
            proof {
                let ki = key_index(pre, k@);
                if ki >= 0 {
                    assert(im_view(*m)[ki].0 == k@);
                }
                assert(ki == -1);
            }
            im_insert(m, k, 1);
            proof {
                let ov = im_view(*old(m));
                assert(im_view(*m) == ov.push((k@, 1usize)));
                let target = bump(pre, k@);
                assert(target == pre.push((k@, 1int)));
                assert forall|i: int|
                    0 <= i < im_view(*m).len() implies (#[trigger] im_view(*m)[i]).0
                    == target[i].0 && im_view(*m)[i].1 as int == target[i].1 by {
                    if i < ov.len() {
                        assert(im_view(*m)[i] == ov[i]);
                        assert(target[i] == pre[i]);
                    }
                }
            }
        }
    }
}

/// Joins the grouped symbol terms of one side.
fn format_sym_entries(entries: Vec<(String, usize)>, Ghost(cs): Ghost<Seq<(Seq<char>, int)>>) -> (r:
    String)
    requires
        entries@.len() == cs.len(),
        forall|i: int|
            0 <= i < cs.len() ==> (#[trigger] entries@[i]).0@ == cs[i].0 && entries@[i].1 as int
                == cs[i].1,
    ensures
        r@ == fmt_sym_counts(cs),
{
    let mut r = String::new();
    let mut i: usize = 0;
    while i < entries.len()
        invariant
            0 <= i <= entries@.len(),
            entries@.len() == cs.len(),
            forall|j: int|
                0 <= j < cs.len() ==> (#[trigger] entries@[j]).0@ == cs[j].0 && entries@[j].1 as int
                    == cs[j].1,
            r@ == fmt_sym_counts(cs.take(i as int)),
        decreases entries@.len() - i,
    {
        let (key, count) = (&entries[i].0, entries[i].1);
        r.append(key.as_str());
        if count > 1 {
            r.append("^");
            r.append(usize_dec_string(count).as_str());
        }
        proof {
            reveal_strlit("^");
            let taken = cs.take(i as int + 1);
            assert(taken.drop_last() =~= cs.take(i as int));
            assert(taken.last() == cs[i as int]);
            assert(r@ =~= fmt_sym_counts(cs.take(i as int + 1)));
        }
        i += 1;
    }
    proof {
        assert(cs.take(i as int) =~= cs);
    }
    r
}

/// Joins the grouped name terms of one side.
fn format_name_entries(entries: Vec<(String, usize)>, Ghost(cs): Ghost<Seq<(Seq<char>, int)>>) -> (
    r: String)
    requires
        entries@.len() == cs.len(),
        forall|i: int|
            0 <= i < cs.len() ==> (#[trigger] entries@[i]).0@ == cs[i].0 && entries@[i].1 as int
                == cs[i].1,
    ensures
        r@ == fmt_name_counts(cs),
{
    let mut r = String::new();
    let mut i: usize = 0;
    while i < entries.len()
        invariant
            0 <= i <= entries@.len(),
            entries@.len() == cs.len(),
            forall|j: int|
                0 <= j < cs.len() ==> (#[trigger] entries@[j]).0@ == cs[j].0 && entries@[j].1 as int
                    == cs[j].1,
            r@ == fmt_name_counts(cs.take(i as int)),
        decreases entries@.len() - i,
    {
        let (key, count) = (&entries[i].0, entries[i].1);
        if count > 3 {
            r.append(key.as_str());
            r.append(" to the ");
            r.append(usize_dec_string(count).as_str());
        } else if count == 3 {
            r.append("cubic ");
            r.append(key.as_str());
        } else if count == 2 {
            r.append("square ");
            r.append(key.as_str());
        } else {
            r.append(key.as_str());
        }
        proof {
            reveal_strlit(" to the ");
            reveal_strlit("cubic ");
            reveal_strlit("square ");
            let taken = cs.take(i as int + 1);
            assert(taken.drop_last() =~= cs.take(i as int));
            assert(taken.last() == cs[i as int]);
            assert(r@ =~= fmt_name_counts(cs.take(i as int + 1)));
        }
        i += 1;
    }
    proof {
        assert(cs.take(i as int) =~= cs);
    }
    r
}

/// Removes trailing spaces.
fn trim_trailing_spaces(s: String) -> (r: String)
    ensures
        r@ == trim_spaces(s@),
{
    let mut v = string_to_chars(s.as_str());
    while v.len() > 0 && v[v.len() - 1] == ' '
        invariant
            trim_spaces(v@) == trim_spaces(s@),
        decreases v@.len(),
    {
        let _ = v.pop();
    }
    string_from_chars(&v)
}

impl Unit {
    /// Builds the insertion-ordered counts of the members' rendered
    /// symbols.
    fn count_member_symbols(s: &Vec<Unit>) -> (r: IndexMap<String, usize>)
        ensures
            counts_match(im_view(r), counts_of(syms_of(s@))),
        decreases seq_size(s@), 1int,
    {
        let mut m = im_new();
        let mut i: usize = 0;
        while i < s.len()
            invariant
                0 <= i <= s@.len(),
                counts_match(im_view(m), counts_of(syms_of(s@.take(i as int)))),
            decreases s@.len() - i,
        {
            proof {
                lemma_member_size(s@, i as int);
                lemma_unit_size_pos(s@[i as int]);
            }
            let sym = s[i].symbol();
            let ghost pre = counts_of(syms_of(s@.take(i as int)));
            proof {
                lemma_counts_of_wf(syms_of(s@.take(i as int)));
                lemma_syms_len(s@.take(i as int));
            }
            bump_count(&mut m, sym, Ghost(pre), Ghost(i as int));
            proof {
                let taken = s@.take(i as int + 1);
                assert(taken.drop_last() =~= s@.take(i as int));
                assert(taken.last() == s@[i as int]);
                assert(syms_of(taken).drop_last() =~= syms_of(s@.take(i as int)));
                assert(syms_of(taken).last() == unit_symbol(s@[i as int]));
                assert(counts_of(syms_of(taken)) == bump(pre, sym@));
            }
            i += 1;
        }
        proof {
            assert(s@.take(i as int) =~= s@);
        }
        m
    }

    /// Builds the insertion-ordered counts of the members' name keys.
    fn count_member_keys(s: &Vec<Unit>) -> (r: IndexMap<String, usize>)
        ensures
            counts_match(im_view(r), counts_of(keys_of(s@))),
        decreases seq_size(s@), 1int,
    {
        let mut m = im_new();
        let mut i: usize = 0;
        while i < s.len()
            invariant
                0 <= i <= s@.len(),
                counts_match(im_view(m), counts_of(keys_of(s@.take(i as int)))),
            decreases s@.len() - i,
        {
            proof {
                lemma_member_size(s@, i as int);
                lemma_unit_size_pos(s@[i as int]);
            }
            let mut key = s[i].name();
            if !s[i].is_modifier() {
                key.append(" ");
                proof {
                    reveal_strlit(" ");
                    assert(key@ =~= name_key(s@[i as int]));
                }
            }
            let ghost pre = counts_of(keys_of(s@.take(i as int)));
            proof {
                lemma_counts_of_wf(keys_of(s@.take(i as int)));
                lemma_syms_len(s@.take(i as int));
            }
            bump_count(&mut m, key, Ghost(pre), Ghost(i as int));
            proof {
                let taken = s@.take(i as int + 1);
                assert(taken.drop_last() =~= s@.take(i as int));
                assert(taken.last() == s@[i as int]);
                assert(keys_of(taken).drop_last() =~= keys_of(s@.take(i as int)));
                assert(keys_of(taken).last() == name_key(s@[i as int]));
                assert(counts_of(keys_of(taken)) == bump(pre, key@));
            }
            i += 1;
        }
        proof {
            assert(s@.take(i as int) =~= s@);
        }
        m
    }

    /// The symbol of the unit, such as `m` for a meter: compound members
    /// are grouped by symbol in first-seen order with `^`-exponents, and an
    /// empty numerator renders as a reciprocal.
    pub fn symbol(&self) -> (r: String)
        ensures
            r@ == unit_symbol(*self),
        decreases unit_size(*self), 0int,
    {
        match self {
            Unit::Atomic(a) => atom_symbol_string(*a),
            Unit::Compound(n, d) => {
                if n.len() == 0 && d.len() == 0 {
                    let r = String::new();
                    proof {
                        assert(r@ =~= unit_symbol(*self));
                    }
                    r
                } else {
                    let nm = Self::count_member_symbols(n);
                    let dm = Self::count_member_symbols(d);
                    let ghost ncs = counts_of(syms_of(n@));
                    let ghost dcs = counts_of(syms_of(d@));
                    let ns = format_sym_entries(im_entries(nm), Ghost(ncs));
                    let ds = format_sym_entries(im_entries(dm), Ghost(dcs));
                    if ns.as_str().is_empty() {
                        let mut r = String::from_str("1/");
                        r.append(ds.as_str());
                        proof {
                            assert(r@ == "1/"@ + fmt_sym_counts(dcs));
                        }
                        r
                    } else if ds.as_str().is_empty() {
                        ns
                    } else {
                        let mut r = ns;
                        r.append("/");
                        r.append(ds.as_str());
                        proof {
                            assert(r@ == fmt_sym_counts(ncs) + "/"@ + fmt_sym_counts(dcs));
                        }
                        r
                    }
                }
            }
        }
    }

    /// The display name of the unit, such as `meter per square second`:
    /// repeated members collapse to square/cubic forms, prefixes attach
    /// without a space, and trailing spaces are trimmed.
    pub fn name(&self) -> (r: String)
        ensures
            r@ == unit_name(*self),
        decreases unit_size(*self), 0int,
    {
        match self {
            Unit::Atomic(a) => atom_name_string(*a),
            Unit::Compound(n, d) => {
                if n.len() == 0 && d.len() == 0 {
                    let r = String::new();
                    proof {
                        assert(r@ =~= unit_name(*self));
                    }
                    r
                } else {
                    let nm = Self::count_member_keys(n);
                    let dm = Self::count_member_keys(d);
                    let ghost ncs = counts_of(keys_of(n@));
                    let ghost dcs = counts_of(keys_of(d@));
                    let ns = format_name_entries(im_entries(nm), Ghost(ncs));
                    let ds = format_name_entries(im_entries(dm), Ghost(dcs));
                    let whole = if ns.as_str().is_empty() {
                        let mut r = String::from_str("reciprocal ");
                        r.append(ds.as_str());
                        r
                    } else if ds.as_str().is_empty() {
                        ns
                    } else {
                        let mut r = ns;
                        r.append("per ");
                        r.append(ds.as_str());
                        r
                    };
                    proof {
                        reveal_strlit("reciprocal ");
                        reveal_strlit("per ");
                    }
                    trim_trailing_spaces(whole)
                }
            }
        }
    }
}


impl crate::quantity::Quantity {
    /// The combined rendering `{magnitude}{unit symbol}`.
    pub fn to_display_string(&self) -> (r: String)
        requires
            self.magnitude.numer.inv(),
            self.magnitude.denom.inv(),
        ensures
            r@ == rat_str(self.magnitude.numer@, self.magnitude.denom@) + unit_symbol(self.unit),
    {
        let mut s = self.magnitude.to_display_string();
        s.append(self.unit.symbol().as_str());
        s
    }
}

} // verus!
