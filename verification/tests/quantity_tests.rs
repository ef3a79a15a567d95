use tantalum_unit::quantity::Quantity;
use tantalum_unit::rational::BigRational;
use tantalum_unit::unit::{Atom, Unit};

fn a(atom: Atom) -> Unit {
    Unit::Atomic(atom)
}

fn integer(v: i64) -> BigRational {
    BigRational::from_i64(v)
}

fn int128(v: i128) -> BigRational {
    BigRational::from_i128_pair(v, 1)
}

fn ratio(n: i128, d: i128) -> BigRational {
    BigRational::from_i128_pair(n, d)
}

fn q(v: BigRational, u: Unit) -> Quantity {
    Quantity::new(v, u)
}

fn unitless() -> Unit {
    Unit::unitless()
}

#[test]
fn multiplication_int() {
    let lhs = q(integer(12), a(Atom::Meter));
    let rhs = q(integer(999), a(Atom::Meter));
    let result = lhs.mul(rhs);
    assert!(result.magnitude.eq_value(&integer(11988)));
    assert_eq!(result.unit, a(Atom::Meter).mul(a(Atom::Meter)));
}

#[test]
fn multiplication_ratio() {
    let lhs = q(ratio(13, 5), unitless().div(a(Atom::Second)));
    let rhs = q(ratio(3484, 13), a(Atom::Meter));
    let result = lhs.mul(rhs);
    assert!(result.magnitude.eq_value(&ratio(3484, 5)));
    assert_eq!(result.unit, a(Atom::Meter).div(a(Atom::Second)));
}

#[test]
fn div_int() {
    let lhs = q(integer(12), a(Atom::Meter));
    let rhs = q(integer(999), a(Atom::Meter));
    let result = lhs.div(rhs);
    assert!(result.magnitude.eq_value(&ratio(4, 333)));
    assert_eq!(result.unit, unitless());
}

#[test]
fn div_ratio() {
    let lhs = q(ratio(13, 5), unitless().div(a(Atom::Second)));
    let rhs = q(ratio(3484, 13), a(Atom::Meter));
    let result = lhs.div(rhs);
    assert!(result.magnitude.eq_value(&ratio(13, 1340)));
    assert_eq!(result.unit, unitless().div(a(Atom::Second).mul(a(Atom::Meter))));
}

#[test]
fn add_int() {
    let lhs = q(integer(8342), a(Atom::Gallon));
    let rhs = q(integer(743), a(Atom::Gallon));
    let result = lhs.add(rhs).unwrap();
    assert!(result.magnitude.eq_value(&integer(9085)));
    assert_eq!(result.unit, a(Atom::Gallon));

    let lhs = q(integer(8342), a(Atom::Gallon));
    let rhs = q(integer(743), a(Atom::Liter));
    let result = lhs.add(rhs).unwrap();
    assert!(result.magnitude.eq_value(&ratio(4040113137766, 473176473)));
    assert_eq!(result.unit, a(Atom::Gallon));
}

#[test]
fn invalid_add() {
    let lhs = q(integer(8342), a(Atom::Gallon));
    let rhs = q(integer(743), a(Atom::Joule).div(a(Atom::Candela)));
    assert!(lhs.add(rhs).is_err());
}

#[test]
fn sub_int() {
    let lhs = q(integer(8342), a(Atom::Gallon));
    let rhs = q(integer(743), a(Atom::Gallon));
    let result = lhs.sub(rhs).unwrap();
    assert!(result.magnitude.eq_value(&integer(7599)));
    assert_eq!(result.unit, a(Atom::Gallon));

    let lhs = q(integer(8342), a(Atom::Gallon));
    let rhs = q(integer(743), a(Atom::Liter));
    let result = lhs.sub(rhs).unwrap();
    assert!(result.magnitude.eq_value(&ratio(3854363137766, 473176473)));
    assert_eq!(result.unit, a(Atom::Gallon));
}

#[test]
fn invalid_sub() {
    let lhs = q(integer(8342), a(Atom::Gallon));
    let rhs = q(integer(743), a(Atom::Joule).div(a(Atom::Candela)));
    assert!(lhs.sub(rhs).is_err());
}

#[test]
fn apply_modifiers_single_big() {
    let cases: Vec<(Atom, i128)> = vec![
        (Atom::Yotta, 13_000_000_000_000_000_000_000_000),
        (Atom::Zetta, 13_000_000_000_000_000_000_000),
        (Atom::Exa, 13_000_000_000_000_000_000),
        (Atom::Peta, 13_000_000_000_000_000),
        (Atom::Tera, 13_000_000_000_000),
        (Atom::Giga, 13_000_000_000),
        (Atom::Mega, 13_000_000),
        (Atom::Kilo, 13_000),
        (Atom::Hecto, 1_300),
    ];
    for (prefix, expected) in cases {
        let value = q(integer(13), a(prefix).mul(a(Atom::Meter)));
        let result = value.apply_modifiers();
        assert!(result.magnitude.eq_value(&int128(expected)));
        assert_eq!(result.unit, a(Atom::Meter));
    }

    let value = q(integer(13), a(Atom::Meter));
    let result = value.apply_modifiers();
    assert!(result.magnitude.eq_value(&integer(13)));
    assert_eq!(result.unit, a(Atom::Meter));
}

#[test]
fn apply_modifiers_single_small() {
    let cases: Vec<(Atom, i128)> = vec![
        (Atom::Yocto, 1_000_000_000_000_000_000_000_000),
        (Atom::Zepto, 1_000_000_000_000_000_000_000),
        (Atom::Atto, 1_000_000_000_000_000_000),
        (Atom::Femto, 1_000_000_000_000_000),
        (Atom::Pico, 1_000_000_000_000),
        (Atom::Nano, 1_000_000_000),
        (Atom::Micro, 1_000_000),
        (Atom::Milli, 1_000),
        (Atom::Centi, 100),
        (Atom::Deci, 10),
    ];
    for (prefix, denom) in cases {
        let value = q(integer(13), a(prefix).mul(a(Atom::Meter)));
        let result = value.apply_modifiers();
        assert!(result.magnitude.eq_value(&ratio(13, denom)));
        assert_eq!(result.unit, a(Atom::Meter));
    }
}

#[test]
fn apply_modifiers_mixed() {
    let value = q(integer(25), a(Atom::Yotta).mul(a(Atom::Meter)).div(a(Atom::Zetta)));
    let result = value.apply_modifiers();
    assert!(result.magnitude.eq_value(&integer(25_000)));
    assert_eq!(result.unit, a(Atom::Meter));
}

#[test]
fn apply_modifiers_newest_prefixes() {
    let value = q(integer(13), a(Atom::Quetta).mul(a(Atom::Meter)));
    let result = value.apply_modifiers();
    assert!(result.magnitude.eq_value(&int128(13_000_000_000_000_000_000_000_000_000_000)));
    assert_eq!(result.unit, a(Atom::Meter));

    let value = q(integer(13), a(Atom::Ronna).mul(a(Atom::Meter)));
    let result = value.apply_modifiers();
    assert!(result.magnitude.eq_value(&int128(13_000_000_000_000_000_000_000_000_000)));
    assert_eq!(result.unit, a(Atom::Meter));

    let value = q(integer(13), a(Atom::Quecto).mul(a(Atom::Meter)));
    let result = value.apply_modifiers();
    assert!(result.magnitude.eq_value(&ratio(13, 1_000_000_000_000_000_000_000_000_000_000)));
    assert_eq!(result.unit, a(Atom::Meter));

    let value = q(integer(13), a(Atom::Ronto).mul(a(Atom::Meter)));
    let result = value.apply_modifiers();
    assert!(result.magnitude.eq_value(&ratio(13, 1_000_000_000_000_000_000_000_000_000)));
    assert_eq!(result.unit, a(Atom::Meter));
}

#[test]
fn conversion() {
    let value = q(integer(152), a(Atom::Meter));
    let result = value.convert_to(a(Atom::Inch)).unwrap();
    assert!(result.magnitude.eq_value(&ratio(760000, 127)));
    assert_eq!(result.unit, a(Atom::Inch));

    let value = q(integer(152), a(Atom::Meter));
    let result = value.convert_to(a(Atom::Joule));
    assert!(result.is_err());

    let value = q(integer(38), a(Atom::Joule).div(a(Atom::Second)));
    let result = value.convert_to(a(Atom::Watt)).unwrap();
    assert!(result.magnitude.eq_value(&integer(38)));
    assert_eq!(result.unit, a(Atom::Watt));

    let value = q(integer(3800), a(Atom::Joule).div(a(Atom::Second)));
    let result = value.convert_to(a(Atom::Kilo).mul(a(Atom::Watt))).unwrap();
    assert!(result.magnitude.eq_value(&ratio(38, 10)));
    assert_eq!(result.unit, a(Atom::Kilo).mul(a(Atom::Watt)));

    let value = q(integer(3800), a(Atom::Joule).div(a(Atom::Second)));
    let target = a(Atom::Kilo).mul(a(Atom::Coulomb)).mul(a(Atom::Volt)).div(a(Atom::Second));
    let result = value.convert_to(target).unwrap();
    assert!(result.magnitude.eq_value(&ratio(38, 10)));
    let target = a(Atom::Kilo).mul(a(Atom::Coulomb)).mul(a(Atom::Volt)).div(a(Atom::Second));
    assert_eq!(result.unit, target);

    let value = q(integer(3800), a(Atom::Joule).div(a(Atom::Second)));
    let target = a(Atom::Newton).mul(a(Atom::Meter)).div(a(Atom::Second));
    let result = value.convert_to(target).unwrap();
    assert!(result.magnitude.eq_value(&integer(3800)));
    let target = a(Atom::Newton).mul(a(Atom::Meter)).div(a(Atom::Second));
    assert_eq!(result.unit, target);
}

#[test]
fn celsius_to_si() {
    let freezing = Quantity::from_i64_with_unit(0, a(Atom::Celsius));
    let si = freezing.to_si_units();
    assert!(si.magnitude.eq_value(&ratio(5463, 20)));
    assert_eq!(si.unit, a(Atom::Kelvin));
}

#[test]
fn convert_round_trip_exact() {
    let original = q(ratio(152, 7), a(Atom::Meter));
    let there = original.convert_to(a(Atom::Inch)).unwrap();
    let back = there.convert_to(a(Atom::Meter)).unwrap();
    assert!(back.magnitude.eq_value(&ratio(152, 7)));
    assert_eq!(back.magnitude, ratio(152, 7));
    assert_eq!(back.unit, a(Atom::Meter));

    let original = q(integer(38), a(Atom::Watt));
    let there = original.convert_to(a(Atom::Joule).div(a(Atom::Second))).unwrap();
    let back = there.convert_to(a(Atom::Watt)).unwrap();
    assert_eq!(back.magnitude, integer(38));

    let original = q(integer(100), a(Atom::Celsius));
    let there = original.convert_to(a(Atom::Fahrenheit)).unwrap();
    let back = there.convert_to(a(Atom::Celsius)).unwrap();
    assert!(back.magnitude.eq_value(&integer(100)));
}

#[test]
fn atomic_unit_divided_by_itself_is_unitless() {
    let atoms = vec![
        Atom::Meter,
        Atom::Joule,
        Atom::Gallon,
        Atom::Kelvin,
        Atom::Watt,
        Atom::Kilo,
    ];
    for atom in atoms {
        assert_eq!(a(atom).div(a(atom)), unitless());
        let lhs = q(integer(6), a(atom));
        let rhs = q(integer(3), a(atom));
        let result = lhs.div(rhs);
        assert!(result.is_unitless());
        assert!(result.magnitude.eq_value(&integer(2)));
    }
}

#[test]
fn from_unit_and_from_rational() {
    let one_meter = Quantity::from_unit(a(Atom::Meter));
    assert!(one_meter.magnitude.eq_value(&integer(1)));
    assert_eq!(one_meter.unit, a(Atom::Meter));

    let plain = Quantity::from_rational(ratio(7, 3));
    assert!(plain.is_unitless());
    assert!(plain.magnitude.eq_value(&ratio(7, 3)));

    let tagged = Quantity::from_rational_with_unit(ratio(7, 3), a(Atom::Second));
    assert_eq!(tagged.unit, a(Atom::Second));
}

#[test]
fn negation_keeps_unit() {
    let value = q(ratio(5, 2), a(Atom::Meter));
    let negated = value.neg();
    assert!(negated.magnitude.eq_value(&ratio(-5, 2)));
    assert_eq!(negated.unit, a(Atom::Meter));
}

#[test]
fn rational_scaling() {
    let value = q(integer(10), a(Atom::Meter));
    let scaled = value.mul_rational(&ratio(3, 2));
    assert!(scaled.magnitude.eq_value(&integer(15)));
    assert_eq!(scaled.unit, a(Atom::Meter));

    let value = q(integer(10), a(Atom::Meter));
    let scaled = value.div_rational(&ratio(5, 2));
    assert!(scaled.magnitude.eq_value(&integer(4)));
    assert_eq!(scaled.unit, a(Atom::Meter));
}

#[test]
fn compound_assignment_forms() {
    let mut value = q(integer(12), a(Atom::Meter));
    value.mul_assign(q(integer(999), a(Atom::Meter)));
    assert!(value.magnitude.eq_value(&integer(11988)));
    assert_eq!(value.unit, a(Atom::Meter).mul(a(Atom::Meter)));

    let mut value = q(integer(12), a(Atom::Meter));
    value.div_assign(q(integer(999), a(Atom::Meter)));
    assert!(value.magnitude.eq_value(&ratio(4, 333)));
    assert_eq!(value.unit, unitless());

    let mut value = q(integer(8342), a(Atom::Gallon));
    value.add_assign(q(integer(743), a(Atom::Liter)));
    assert!(value.magnitude.eq_value(&ratio(4040113137766, 473176473)));
    assert_eq!(value.unit, a(Atom::Gallon));

    let mut value = q(integer(8342), a(Atom::Gallon));
    value.sub_assign(q(integer(743), a(Atom::Liter)));
    assert!(value.magnitude.eq_value(&ratio(3854363137766, 473176473)));
    assert_eq!(value.unit, a(Atom::Gallon));

    let mut value = q(integer(10), a(Atom::Meter));
    value.mul_rational_assign(&ratio(3, 2));
    assert!(value.magnitude.eq_value(&integer(15)));
    value.div_rational_assign(&ratio(5, 2));
    assert!(value.magnitude.eq_value(&integer(6)));
    assert_eq!(value.unit, a(Atom::Meter));
}
