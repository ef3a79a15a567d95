use tantalum_unit::unit::{Atom, Unit};

fn a(atom: Atom) -> Unit {
    Unit::Atomic(atom)
}

fn c(num: Vec<Unit>, den: Vec<Unit>) -> Unit {
    Unit::Compound(num, den)
}

fn unitless() -> Unit {
    Unit::unitless()
}

#[test]
fn flatten() {
    let result = a(Atom::Meter).div(a(Atom::Second)).div(a(Atom::Second)).flatten();
    assert_eq!(result, a(Atom::Meter).div(a(Atom::Second).mul(a(Atom::Second))));

    let result = a(Atom::Second).div(a(Atom::Meter).div(a(Atom::Second))).flatten();
    assert_eq!(result, a(Atom::Second).mul(a(Atom::Second)).div(a(Atom::Meter)));

    let lhs = a(Atom::Meter).div(a(Atom::Second));
    let rhs = a(Atom::Meter).div(a(Atom::Second));
    let result = lhs.div(rhs).flatten();
    let expected = a(Atom::Meter).mul(a(Atom::Second)).div(a(Atom::Second).mul(a(Atom::Meter)));
    assert_eq!(result, expected);

    let lhs = a(Atom::Watt).div(a(Atom::Joule)).div(a(Atom::Second));
    let rhs = a(Atom::Meter).div(a(Atom::Second));
    let result = lhs.div(rhs).flatten();
    let expected = a(Atom::Watt).mul(a(Atom::Second)).div(
        a(Atom::Joule).mul(a(Atom::Second)).mul(a(Atom::Meter)),
    );
    assert_eq!(result, expected);
}

#[test]
fn simplify_simple() {
    let result = a(Atom::Joule).simplify();
    assert_eq!(result, a(Atom::Joule));

    let result = a(Atom::Meter).simplify();
    assert_eq!(result, a(Atom::Meter));

    let result = a(Atom::Gallon).simplify();
    assert_eq!(result, a(Atom::Gallon));

    let result = a(Atom::Year).simplify();
    assert_eq!(result, a(Atom::Year));
}

#[test]
fn simplify_compound_unitless() {
    let result = c(vec![a(Atom::Second)], vec![a(Atom::Second)]).simplify();
    assert_eq!(result, unitless());
}

#[test]
fn simplify_compound() {
    let result = c(vec![a(Atom::Second), a(Atom::Watt)], vec![a(Atom::Second)]).simplify();
    assert_eq!(result, a(Atom::Watt));

    let result = c(vec![a(Atom::Second), a(Atom::Watt)], vec![a(Atom::Second)]).simplify();
    assert_eq!(result, a(Atom::Watt));

    let result = c(
        vec![a(Atom::Meter), a(Atom::Watt), a(Atom::Meter), a(Atom::AU)],
        vec![a(Atom::Second)],
    ).simplify();
    let expected = c(
        vec![a(Atom::Meter), a(Atom::Watt), a(Atom::Meter), a(Atom::AU)],
        vec![a(Atom::Second)],
    );
    assert_eq!(result, expected);

    let result = c(vec![a(Atom::Kelvin), a(Atom::Kelvin)], vec![a(Atom::Kelvin)]).simplify();
    assert_eq!(result, a(Atom::Kelvin));

    let result = c(vec![a(Atom::Year)], vec![a(Atom::Ounce), a(Atom::Year)]).simplify();
    assert_eq!(result, c(vec![], vec![a(Atom::Ounce)]));
}

#[test]
fn simplify_nested_compound() {
    let inner = c(vec![a(Atom::Meter)], vec![a(Atom::Second)]);
    let result = c(vec![inner], vec![a(Atom::Second)]).simplify();
    assert_eq!(result, c(vec![a(Atom::Meter)], vec![a(Atom::Second), a(Atom::Second)]));

    let innermost = c(vec![a(Atom::Watt)], vec![a(Atom::Joule)]);
    let inner = c(vec![innermost], vec![a(Atom::Second)]);
    let denom = c(vec![a(Atom::Meter)], vec![a(Atom::Second)]);
    let result = c(vec![inner], vec![denom]).simplify();
    assert_eq!(result, c(vec![a(Atom::Watt)], vec![a(Atom::Joule), a(Atom::Meter)]));
}

#[test]
fn to_fraction() {
    let result = a(Atom::Gram).to_fraction();
    assert_eq!(result, (vec![a(Atom::Gram)], vec![]));

    let result = a(Atom::Meter).div(a(Atom::Second)).to_fraction();
    assert_eq!(result, (vec![a(Atom::Meter)], vec![a(Atom::Second)]));
}

#[test]
fn simplify_twice_is_simplify_once() {
    let nested = c(
        vec![c(vec![a(Atom::Meter), a(Atom::Second)], vec![a(Atom::Second)])],
        vec![a(Atom::Meter), a(Atom::Kelvin)],
    );
    let once = nested.simplify();
    let again = c(
        vec![c(vec![a(Atom::Meter), a(Atom::Second)], vec![a(Atom::Second)])],
        vec![a(Atom::Meter), a(Atom::Kelvin)],
    ).simplify().simplify();
    assert_eq!(once, again);

    let mixed = c(
        vec![a(Atom::Watt), a(Atom::Second), a(Atom::Watt)],
        vec![a(Atom::Watt), a(Atom::Second)],
    );
    let once = mixed.simplify();
    let again = c(
        vec![a(Atom::Watt), a(Atom::Second), a(Atom::Watt)],
        vec![a(Atom::Watt), a(Atom::Second)],
    ).simplify().simplify();
    assert_eq!(once, again);
    assert_eq!(again, a(Atom::Watt));
}

#[test]
fn first_match_cancellation_is_order_dependent() {
    let unit = c(
        vec![a(Atom::Second), a(Atom::Second), a(Atom::Meter)],
        vec![a(Atom::Second), a(Atom::Meter)],
    );
    let result = unit.simplify();
    assert_eq!(result, a(Atom::Second));
}

#[test]
fn is_modifier() {
    assert!(a(Atom::Kilo).is_modifier());
    assert!(a(Atom::Micro).is_modifier());
    assert!(a(Atom::Kibi).is_modifier());
    assert!(a(Atom::Exbi).is_modifier());
    assert!(!a(Atom::Meter).is_modifier());
    assert!(!a(Atom::Joule).is_modifier());
    assert!(!c(vec![a(Atom::Kilo)], vec![]).is_modifier());
    assert!(a(Atom::Quecto).is_modifier());
    assert!(a(Atom::Ronto).is_modifier());
    assert!(a(Atom::Ronna).is_modifier());
    assert!(a(Atom::Quetta).is_modifier());
}

#[test]
fn is_unitless() {
    assert!(unitless().is_unitless());
    assert!(!a(Atom::Meter).is_unitless());
    assert!(!c(vec![a(Atom::Meter)], vec![]).is_unitless());
    assert!(c(vec![a(Atom::Second)], vec![a(Atom::Second)]).simplify().is_unitless());
}

#[test]
fn unit_compound_assignment_forms() {
    let mut unit = a(Atom::Meter);
    unit.mul_assign(a(Atom::Second));
    assert_eq!(unit, a(Atom::Meter).mul(a(Atom::Second)));
    unit.div_assign(a(Atom::Second));
    assert_eq!(unit, a(Atom::Meter));
}
