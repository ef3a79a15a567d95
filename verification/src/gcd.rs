//! Greatest common divisors over the mathematical integers: the recursive
//! Euclid definition, divisibility facts about it, and a verified executable
//! computation on `u128` magnitudes.

use vstd::prelude::*;
use vstd::arithmetic::div_mod::{
    lemma_fundamental_div_mod, lemma_fundamental_div_mod_converse, lemma_mod_division_less_than_divisor,
    lemma_mod_bound,
};

verus! {

/// Euclid's greatest common divisor on natural numbers.
pub open spec fn gcd_nat(a: nat, b: nat) -> nat
    decreases b,
{
    if b == 0 {
        a
    } else {
        gcd_nat(b, a % b)
    }
}

pub open spec fn abs_int(a: int) -> int {
    if a < 0 {
        -a
    } else {
        a
    }
}

/// The greatest common divisor of two integers: always non-negative.
pub open spec fn int_gcd(a: int, b: int) -> int {
    gcd_nat(abs_int(a) as nat, abs_int(b) as nat) as int
}

/// `d` divides `n` exactly.
pub open spec fn divides(d: int, n: int) -> bool {
    exists|k: int| n == #[trigger] (d * k)
}

pub proof fn lemma_gcd_nat_divides(a: nat, b: nat)
    ensures
        divides(gcd_nat(a, b) as int, a as int),
        divides(gcd_nat(a, b) as int, b as int),
    decreases b,
{
    let g = gcd_nat(a, b) as int;
    if b == 0 {
        assert(a == g * 1);
        assert(0int == g * 0);
    } else {
        lemma_gcd_nat_divides(b, (a % b) as nat);
        let k1 = choose|k: int| b == #[trigger] (g * k);
        let k2 = choose|k: int| a % b == #[trigger] (g * k);
        lemma_fundamental_div_mod(a as int, b as int);
        let q = a as int / b as int;
        assert(a == b * q + a % b);
        assert(b * q == (g * k1) * q);
        assert((g * k1) * q == g * (k1 * q)) by (nonlinear_arith);
        assert(a as int == g * (k1 * q) + g * k2);
        assert(g * (k1 * q) + g * k2 == g * (k1 * q + k2)) by (nonlinear_arith);
    }
}

pub proof fn lemma_gcd_nat_zero(a: nat, b: nat)
    ensures
        (gcd_nat(a, b) == 0) <==> (a == 0 && b == 0),
    decreases b,
{
    if b == 0 {
    } else {
        lemma_gcd_nat_zero(b, (a % b) as nat);
    }
}

/// A nonzero multiple of `d` is at least `|d|` in magnitude.
pub proof fn lemma_divides_bound(d: int, n: int)
    requires
        divides(d, n),
        n != 0,
    ensures
        abs_int(d) <= abs_int(n),
        d != 0,
{
    let k = choose|k: int| n == #[trigger] (d * k);
    assert(k != 0) by {
        if k == 0 {
            assert(n == d * 0 == 0);
        }
    }
    assert(d != 0) by {
        if d == 0 {
            assert(n == 0 * k == 0);
        }
    }
    assert(abs_int(d * k) >= abs_int(d) * 1) by (nonlinear_arith)
        requires
            k != 0,
            d != 0,
    ;
}

/// Exact division: if `d` divides `n`, the Euclidean quotient multiplies back.
pub proof fn lemma_exact_div(n: int, d: int)
    requires
        divides(d, n),
        d > 0,
    ensures
        d * (n / d) == n,
        n % d == 0,
{
    let k = choose|k: int| n == #[trigger] (d * k);
    assert(d * k == k * d) by (nonlinear_arith);
    assert(n == k * d + 0);
    lemma_fundamental_div_mod_converse(n, d, k, 0);
}

/// Truncating integer division (rounding toward zero) expressed with the
/// Euclidean `/` of specifications.
pub open spec fn trunc_div(x: int, d: int) -> int {
    if x == 0 {
        0
    } else if x > 0 && d > 0 {
        x / d
    } else if x < 0 && d < 0 {
        (x * -1) / (d * -1)
    } else if x < 0 {
        ((x * -1) / d) * -1
    } else {
        (x / (d * -1)) * -1
    }
}

/// Truncating remainder: what is left after `trunc_div`, with the sign of
/// the dividend.
pub open spec fn trunc_rem(x: int, d: int) -> int {
    x - d * trunc_div(x, d)
}

/// Flooring division, which rounds toward negative infinity.
pub open spec fn floor_div(x: int, d: int) -> int {
    if trunc_rem(x, d) != 0 && ((x < 0) != (d < 0)) {
        trunc_div(x, d) - 1
    } else {
        trunc_div(x, d)
    }
}

/// Flooring remainder, with the sign of the divisor.
pub open spec fn floor_rem(x: int, d: int) -> int {
    x - d * floor_div(x, d)
}

/// The non-negative least common multiple, zero when either input is zero.
pub open spec fn int_lcm(a: int, b: int) -> int {
    if a == 0 || b == 0 {
        0
    } else {
        abs_int(a * trunc_div(b, int_gcd(a, b)))
    }
}

/// The signed greatest common divisor divides both arguments and is
/// positive unless both are zero.
pub proof fn lemma_int_gcd(a: int, b: int)
    ensures
        int_gcd(a, b) >= 0,
        divides(int_gcd(a, b), a),
        divides(int_gcd(a, b), b),
        (a != 0 || b != 0) ==> int_gcd(a, b) > 0,
{
    let g = int_gcd(a, b);
    lemma_gcd_nat_divides(abs_int(a) as nat, abs_int(b) as nat);
    lemma_gcd_nat_zero(abs_int(a) as nat, abs_int(b) as nat);
    let ka = choose|k: int| abs_int(a) == #[trigger] (g * k);
    assert(a == abs_int(a) || a == -abs_int(a));
    if a == -abs_int(a) {
        assert(a == g * (-ka)) by (nonlinear_arith)
            requires
                abs_int(a) == g * ka,
                a == -abs_int(a),
        ;
    }
    let kb = choose|k: int| abs_int(b) == #[trigger] (g * k);
    if b == -abs_int(b) {
        assert(b == g * (-kb)) by (nonlinear_arith)
            requires
                abs_int(b) == g * kb,
                b == -abs_int(b),
        ;
    }
}

/// The least common multiple of two nonzero integers is nonzero.
pub proof fn lemma_int_lcm_nonzero(a: int, b: int)
    requires
        a != 0,
        b != 0,
    ensures
        int_lcm(a, b) != 0,
        int_lcm(a, b) >= 0,
{
    let g = int_gcd(a, b);
    lemma_int_gcd(a, b);
    lemma_trunc_div_exact(b, g);
    let t = trunc_div(b, g);
    assert(a * t != 0) by (nonlinear_arith)
        requires
            a != 0,
            t != 0,
    ;
}

/// A value divides exactly those integers whose truncating remainder by it
/// is zero.
pub proof fn lemma_divides_iff_rem_zero(n: int, d: int)
    requires
        d != 0,
    ensures
        divides(d, n) <==> trunc_rem(n, d) == 0,
{
    if divides(d, n) {
        lemma_trunc_div_exact(n, d);
    }
    if trunc_rem(n, d) == 0 {
        let q = trunc_div(n, d);
        assert(n == d * q);
    }
}

/// For exact quotients, truncating and Euclidean division agree.
pub proof fn lemma_trunc_div_exact(n: int, d: int)
    requires
        divides(d, n),
        d != 0,
    ensures
        d * trunc_div(n, d) == n,
        n != 0 ==> trunc_div(n, d) != 0,
        abs_int(trunc_div(n, d)) <= abs_int(n),
{
    let k = choose|k: int| n == #[trigger] (d * k);
    if n == 0 {
        assert(d * trunc_div(n, d) == 0);
    } else if n > 0 && d > 0 {
        lemma_exact_div(n, d);
    } else if n < 0 && d < 0 {
        assert(-n == (-d) * k) by (nonlinear_arith)
            requires
                n == d * k,
        ;
        assert(divides(-d, -n));
        lemma_exact_div(-n, -d);
        assert((-d) * ((n * -1) / (d * -1)) == -n);
        assert(d * trunc_div(n, d) == n) by (nonlinear_arith)
            requires
                (-d) * ((n * -1) / (d * -1)) == -n,
                trunc_div(n, d) == (n * -1) / (d * -1),
        ;
    } else if n < 0 {
        assert(-n == d * (-k)) by (nonlinear_arith)
            requires
                n == d * k,
        ;
        assert(divides(d, -n));
        lemma_exact_div(-n, d);
        assert(d * ((n * -1) / d) == -n);
        assert(d * trunc_div(n, d) == n) by (nonlinear_arith)
            requires
                d * ((n * -1) / d) == -n,
                trunc_div(n, d) == ((n * -1) / d) * -1,
        ;
    } else {
        assert(n == (-d) * (-k)) by (nonlinear_arith)
            requires
                n == d * k,
        ;
        assert(divides(-d, n));
        lemma_exact_div(n, -d);
        assert((-d) * (n / (d * -1)) == n);
        assert(d * trunc_div(n, d) == n) by (nonlinear_arith)
            requires
                (-d) * (n / (d * -1)) == n,
                trunc_div(n, d) == (n / (d * -1)) * -1,
        ;
    }
    if n != 0 {
        let t = trunc_div(n, d);
        if t == 0 {
            assert(n == d * 0);
        }
        assert(divides(t, n)) by {
            assert(n == t * d);
        }
        lemma_divides_bound(t, n);
    }
}

/// A common divisor also divides any integer combination `x - y * q`.
proof fn lemma_divides_combination(c: int, x: int, y: int, q: int)
    requires
        divides(c, x),
        divides(c, y),
    ensures
        divides(c, x - y * q),
{
    let k1 = choose|k: int| x == #[trigger] (c * k);
    let k2 = choose|k: int| y == #[trigger] (c * k);
    assert(x - y * q == c * (k1 - k2 * q)) by (nonlinear_arith)
        requires
            x == c * k1,
            y == c * k2,
    ;
}

/// Every common divisor divides the greatest common divisor.
pub proof fn lemma_gcd_greatest(a: nat, b: nat, c: int)
    requires
        divides(c, a as int),
        divides(c, b as int),
    ensures
        divides(c, gcd_nat(a, b) as int),
    decreases b,
{
    if b == 0 {
    } else {
        lemma_fundamental_div_mod(a as int, b as int);
        lemma_divides_combination(c, a as int, b as int, a as int / b as int);
        assert(a % b == a - b * (a as int / b as int));
        lemma_gcd_greatest(b, (a % b) as nat, c);
    }
}

/// Scaling both arguments scales the remainder.
proof fn lemma_mod_scale(x: nat, y: nat, c: nat)
    requires
        y > 0,
        c > 0,
    ensures
        (x * c) % (y * c) == (x % y) * c,
{
    lemma_fundamental_div_mod(x as int, y as int);
    let q = x as int / y as int;
    let r = x as int % y as int;
    lemma_mod_bound(x as int, y as int);
    assert(x * c == q * (y * c) + r * c) by (nonlinear_arith)
        requires
            x == y * q + r,
    ;
    assert(0 <= r * c < y * c) by (nonlinear_arith)
        requires
            0 <= r < y,
            c > 0,
    ;
    assert(y * c > 0) by (nonlinear_arith)
        requires
            y > 0,
            c > 0,
    ;
    lemma_fundamental_div_mod_converse((x * c) as int, (y * c) as int, q, r * c);
}

/// Scaling both arguments scales the greatest common divisor.
pub proof fn lemma_gcd_scale(a: nat, b: nat, c: nat)
    ensures
        gcd_nat(a * c, b * c) == gcd_nat(a, b) * c,
    decreases b,
{
    if c == 0 {
        assert(a * c == 0 && b * c == 0) by (nonlinear_arith)
            requires
                c == 0,
        ;
        assert(gcd_nat(0, 0) == 0);
        assert(gcd_nat(a, b) * 0 == 0) by (nonlinear_arith);
    } else if b == 0 {
        assert(b * c == 0) by (nonlinear_arith)
            requires
                b == 0,
        ;
        assert(gcd_nat(a * c, 0) == a * c);
    } else {
        assert(b * c > 0) by (nonlinear_arith)
            requires
                b > 0,
            c > 0,
        ;
        lemma_mod_scale(a, b, c);
        lemma_mod_division_less_than_divisor(a as int, b as int);
        lemma_mod_bound(a as int, b as int);
        lemma_gcd_scale(b, (a % b) as nat, c);
        assert(gcd_nat(a * c, b * c) == gcd_nat(b * c, (a * c) % (b * c)));
        assert((a * c) % (b * c) == ((a % b) as nat) * c);
    }
}

/// Euclid's lemma: a value coprime to one factor of a product it divides
/// must divide the other factor.
pub proof fn lemma_coprime_divides(c: nat, d: nat, e: nat)
    requires
        gcd_nat(c, d) == 1,
        divides(c as int, (d * e) as int),
    ensures
        divides(c as int, e as int),
{
    assert(divides(c as int, (c * e) as int)) by {
        assert((c * e) as int == c as int * e as int) by (nonlinear_arith);
    }
    lemma_gcd_greatest(c * e, d * e, c as int);
    lemma_gcd_scale(c, d, e);
    assert(gcd_nat(c, d) * e == e) by (nonlinear_arith)
        requires
            gcd_nat(c, d) == 1,
    ;
}

/// Euclid's algorithm on unsigned 128-bit integers.
pub fn gcd_u128(a: u128, b: u128) -> (r: u128)
    ensures
        r == gcd_nat(a as nat, b as nat),
{
    let mut x: u128 = a;
    let mut y: u128 = b;
    while y != 0
        invariant
            gcd_nat(x as nat, y as nat) == gcd_nat(a as nat, b as nat),
        decreases y,
    {
        let t: u128 = x % y;
        proof {
            lemma_mod_division_less_than_divisor(x as int, y as int);
            lemma_mod_bound(x as int, y as int);
        }
        x = y;
        y = t;
    }
    x
}

} // verus!
