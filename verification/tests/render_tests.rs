use tantalum_unit::quantity::Quantity;
use tantalum_unit::rational::BigRational;
use tantalum_unit::scalable_integer::ScalableInteger;
use tantalum_unit::unit::{Atom, Unit};

fn a(atom: Atom) -> Unit {
    Unit::Atomic(atom)
}

#[test]
fn integer_strings() {
    assert_eq!(ScalableInteger::from_i64(0).to_decimal_string(), "0");
    assert_eq!(ScalableInteger::from_i64(1507).to_decimal_string(), "1507");
    assert_eq!(ScalableInteger::from_i64(-42).to_decimal_string(), "-42");
    assert_eq!(ScalableInteger::from_i64(i64::MIN).to_decimal_string(), "-9223372036854775808");
    let big = ScalableInteger::from_i128(i128::MAX).add(&ScalableInteger::from_i64(1));
    assert_eq!(big.to_decimal_string(), "170141183460469231731687303715884105728");
    assert_eq!(big.neg().to_decimal_string(), "-170141183460469231731687303715884105728");
}

#[test]
fn rational_strings() {
    assert_eq!(BigRational::from_i64(7).to_display_string(), "7");
    assert_eq!(BigRational::from_i128_pair(760000, 127).to_display_string(), "760000/127");
    assert_eq!(BigRational::from_i128_pair(-3, 4).to_display_string(), "-3/4");
}

#[test]
fn atomic_symbols_and_names() {
    assert_eq!(a(Atom::Meter).symbol(), "m");
    assert_eq!(a(Atom::Meter).name(), "meter");
    assert_eq!(a(Atom::Ohm).symbol(), "Ω");
    assert_eq!(a(Atom::Celsius).symbol(), "°C");
    assert_eq!(a(Atom::AU).name(), "astronomical unit");
}

#[test]
fn compound_symbols() {
    let va_per_s = a(Atom::Volt).mul(a(Atom::Ampere)).div(a(Atom::Second));
    assert_eq!(va_per_s.symbol(), "VA/s");
    let av_per_s = a(Atom::Ampere).mul(a(Atom::Volt)).div(a(Atom::Second));
    assert_eq!(av_per_s.symbol(), "AV/s");

    let area = a(Atom::Meter).mul(a(Atom::Meter));
    assert_eq!(area.symbol(), "m^2");

    let per_second = Unit::unitless().div(a(Atom::Second));
    assert_eq!(per_second.symbol(), "1/s");

    assert_eq!(Unit::unitless().symbol(), "");

    let km = a(Atom::Kilo).mul(a(Atom::Meter));
    assert_eq!(km.symbol(), "km");
}

#[test]
fn compound_names() {
    let speed = a(Atom::Meter).div(a(Atom::Second));
    assert_eq!(speed.name(), "meter per second");

    let accel = a(Atom::Meter).div(a(Atom::Second).mul(a(Atom::Second)));
    assert_eq!(accel.name(), "meter per square second");

    let volume = a(Atom::Meter).mul(a(Atom::Meter)).mul(a(Atom::Meter));
    assert_eq!(volume.name(), "cubic meter");

    let km = a(Atom::Kilo).mul(a(Atom::Meter));
    assert_eq!(km.name(), "kilometer");

    let per_second = Unit::unitless().div(a(Atom::Second));
    assert_eq!(per_second.name(), "reciprocal second");

    let fourth = a(Atom::Meter).mul(a(Atom::Meter)).mul(a(Atom::Meter)).mul(a(Atom::Meter));
    assert_eq!(fourth.name(), "meter  to the 4");
}

#[test]
fn quantity_display() {
    let q = Quantity::from_i64_with_unit(38, a(Atom::Watt));
    assert_eq!(q.to_display_string(), "38W");

    let q = Quantity::new(
        BigRational::from_i128_pair(760000, 127),
        a(Atom::Inch),
    );
    assert_eq!(q.to_display_string(), "760000/127in");
}
