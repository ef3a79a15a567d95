use tantalum_unit::scalable_integer::ScalableInteger;
use tantalum_unit::rational::BigRational;

fn integer(v: i64) -> ScalableInteger {
    ScalableInteger::from_i64(v)
}

#[test]
fn addition_promotes_and_never_overflows() {
    let max = integer(i64::MAX);
    let sum = max.add(&max);
    let expected = ScalableInteger::from_i128(2 * (i64::MAX as i128));
    assert!(sum.eq_value(&expected));
    assert!(matches!(sum, ScalableInteger::Double(_)));

    let max128 = ScalableInteger::from_i128(i128::MAX);
    let sum = max128.add(&max128);
    assert!(matches!(sum, ScalableInteger::Big(_)));
    let half = sum.div(&integer(2));
    assert!(half.eq_value(&max128));
}

#[test]
fn multiplication_promotes_and_comes_back() {
    let big = ScalableInteger::from_i128(1_000_000_000_000_000_000_000_000_000_000);
    let product = big.mul(&big);
    assert!(matches!(product, ScalableInteger::Big(_)));
    let back = product.div(&big);
    assert!(back.eq_value(&big));
    assert!(matches!(back, ScalableInteger::Double(_)));
}

#[test]
fn subtraction_demotes_to_smallest_tier() {
    let max = integer(i64::MAX);
    let sum = max.add(&max);
    let back = sum.sub(&max);
    assert!(back.eq_value(&max));
    assert!(matches!(back, ScalableInteger::Single(_)));
}

#[test]
fn negation_of_extremes() {
    let min = integer(i64::MIN);
    let negated = min.neg();
    let expected = ScalableInteger::from_i128(-(i64::MIN as i128));
    assert!(negated.eq_value(&expected));
    assert!(negated.neg().eq_value(&min));
}

#[test]
fn division_truncates_toward_zero() {
    assert!(integer(7).div(&integer(2)).eq_value(&integer(3)));
    assert!(integer(-7).div(&integer(2)).eq_value(&integer(-3)));
    assert!(integer(7).div(&integer(-2)).eq_value(&integer(-3)));
    assert!(integer(-7).div(&integer(-2)).eq_value(&integer(3)));
}

#[test]
fn remainder_follows_truncating_division() {
    assert!(integer(7).rem(&integer(2)).eq_value(&integer(1)));
    assert!(integer(-7).rem(&integer(2)).eq_value(&integer(-1)));
    assert!(integer(7).rem(&integer(-2)).eq_value(&integer(1)));
    assert!(integer(-7).rem(&integer(-2)).eq_value(&integer(-1)));

    let (quotient, remainder) = integer(-7).div_rem(&integer(2));
    assert!(quotient.eq_value(&integer(-3)));
    assert!(remainder.eq_value(&integer(-1)));
}

#[test]
fn floor_division_and_remainder() {
    assert!(integer(7).div_floor(&integer(2)).eq_value(&integer(3)));
    assert!(integer(-7).div_floor(&integer(2)).eq_value(&integer(-4)));
    assert!(integer(-7).mod_floor(&integer(2)).eq_value(&integer(1)));
    assert!(integer(7).mod_floor(&integer(-2)).eq_value(&integer(-1)));
}

#[test]
fn gcd_and_lcm() {
    assert!(integer(12).gcd(&integer(18)).eq_value(&integer(6)));
    assert!(integer(-12).gcd(&integer(18)).eq_value(&integer(6)));
    assert!(integer(0).gcd(&integer(0)).eq_value(&integer(0)));
    assert!(integer(0).gcd(&integer(-5)).eq_value(&integer(5)));
    assert!(integer(4).lcm(&integer(6)).eq_value(&integer(12)));
    assert!(integer(0).lcm(&integer(6)).eq_value(&integer(0)));

    let big = ScalableInteger::from_i128(1_000_000_000_000_000_000_000_000_000_000);
    let divisor = big.mul(&integer(6)).gcd(&big.mul(&integer(4)));
    assert!(divisor.eq_value(&big.mul(&integer(2))));
}

#[test]
fn parity_and_multiples() {
    assert!(integer(4).is_even());
    assert!(!integer(5).is_even());
    assert!(integer(5).is_odd());
    assert!(integer(12).is_multiple_of(&integer(4)));
    assert!(!integer(12).is_multiple_of(&integer(5)));
    assert!(integer(0).is_multiple_of(&integer(0)));
    assert!(!integer(3).is_multiple_of(&integer(0)));
}

#[test]
fn rational_reduction_and_equality() {
    let reduced = BigRational::new(integer(12), integer(18));
    assert!(reduced.numer.eq_value(&integer(2)));
    assert!(reduced.denom.eq_value(&integer(3)));

    let negative = BigRational::new(integer(5), integer(-10));
    assert!(negative.numer.eq_value(&integer(-1)));
    assert!(negative.denom.eq_value(&integer(2)));

    let raw = BigRational::new_raw(integer(4), integer(6));
    assert!(raw.eq_value(&BigRational::from_i128_pair(2, 3)));
    assert!(raw.numer.eq_value(&integer(4)));

    let reduced_again = raw.reduced();
    assert!(reduced_again.numer.eq_value(&integer(2)));
    assert!(reduced_again.denom.eq_value(&integer(3)));
}

#[test]
fn rational_arithmetic() {
    let a = BigRational::from_i128_pair(1, 6);
    let b = BigRational::from_i128_pair(1, 10);
    let sum = a.add(&b);
    assert!(sum.numer.eq_value(&integer(4)));
    assert!(sum.denom.eq_value(&integer(15)));

    let difference = a.sub(&b);
    assert!(difference.eq_value(&BigRational::from_i128_pair(1, 15)));

    let product = a.mul(&b);
    assert!(product.eq_value(&BigRational::from_i128_pair(1, 60)));

    let quotient = a.div(&b);
    assert!(quotient.eq_value(&BigRational::from_i128_pair(5, 3)));

    let negated = a.neg();
    assert!(negated.eq_value(&BigRational::from_i128_pair(-1, 6)));
}

#[test]
fn ordering_across_tiers() {
    let small = integer(5);
    let negative_large = ScalableInteger::from_i128(-(1 << 70));
    let huge = ScalableInteger::from_i128(i128::MAX).mul(&integer(2));
    assert!(negative_large.lt(&small));
    assert!(small.lt(&huge));
    assert!(huge.neg().lt(&negative_large));
    assert!(!small.lt(&small));
}

#[test]
fn big_tier_equality_and_parity() {
    let base = ScalableInteger::from_i128(1 << 100);
    let squared = base.mul(&base);
    let squared_again = base.mul(&base);
    assert!(squared.eq_value(&squared_again));
    assert!(!squared.eq_value(&base));
    assert!(squared.is_even());
    let odd = squared.add(&integer(1));
    assert!(odd.is_odd());
}

#[test]
fn integer_compound_assignment_forms() {
    let mut value = integer(10);
    value.add_assign(&integer(5));
    assert!(value.eq_value(&integer(15)));
    value.sub_assign(&integer(3));
    assert!(value.eq_value(&integer(12)));
    value.mul_assign(&integer(-4));
    assert!(value.eq_value(&integer(-48)));
    value.div_assign(&integer(5));
    assert!(value.eq_value(&integer(-9)));
    value.rem_assign(&integer(4));
    assert!(value.eq_value(&integer(-1)));
}
