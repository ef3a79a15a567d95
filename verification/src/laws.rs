//! The algebraic laws of the library, stated and proved over the same
//! specification functions that the executable contracts use.

use vstd::prelude::*;
use crate::unit::{
    Unit, Atom, unit_num, unit_den, flat_num, flat_den, nn_seq, dd_seq, cancel, cancel_from,
    first_index_of, div_pair, unitless_spec, is_flat, simp_num, simp_den,
    lemma_first_index_of_props,
};
use crate::catalog::lemma_flat_of_flat;
use crate::rational::{rat_reduce, rat_add, rat_sub, rat_mul, rat_div};
use crate::gcd::{
    int_gcd, int_lcm, trunc_div, divides, abs_int, lemma_int_gcd, lemma_trunc_div_exact,
    lemma_int_lcm_nonzero,
};
use crate::quantity::convert_mag;

verus! {

/// `x` occurs nowhere in `s`.
pub open spec fn not_in(x: Unit, s: Seq<Unit>) -> bool {
    forall|i: int| 0 <= i < s.len() ==> s[i] != x
}

proof fn lemma_not_in_iff_no_first_index(x: Unit, s: Seq<Unit>)
    ensures
        not_in(x, s) <==> first_index_of(s, x) == -1,
{
    lemma_first_index_of_props(s, x);
    if first_index_of(s, x) >= 0 {
        let r = first_index_of(s, x);
        assert(s[r] == x);
    }
    if !not_in(x, s) {
        let w = choose|i: int| 0 <= i < s.len() && s[i] == x;
        assert(exists|i: int| 0 <= i < s.len() && s[i] == x);
    }
}

proof fn lemma_not_in_remove(x: Unit, s: Seq<Unit>, j: int)
    requires
        not_in(x, s),
        0 <= j < s.len(),
    ensures
        not_in(x, s.remove(j)),
{
    let t = s.remove(j);
    assert forall|i: int| 0 <= i < t.len() implies t[i] != x by {
        if i < j {
            assert(t[i] == s[i]);
        } else {
            assert(t[i] == s[i + 1]);
        }
    }
}

/// After cancellation no numerator member has a match left in the
/// denominator.
proof fn lemma_cancel_from_no_common(i: int, n: Seq<Unit>, d: Seq<Unit>)
    requires
        0 <= i <= n.len(),
        forall|k: int| 0 <= k < i ==> not_in(#[trigger] n[k], d),
    ensures
        forall|k: int|
            0 <= k < cancel_from(i, n, d).0.len() ==> not_in(
                #[trigger] cancel_from(i, n, d).0[k],
                cancel_from(i, n, d).1,
            ),
    decreases n.len() - i,
{
    let res = cancel_from(i, n, d);
    if i >= n.len() {
        assert(res.0 == n && res.1 == d);
        assert forall|k: int| 0 <= k < res.0.len() implies not_in(#[trigger] res.0[k], res.1) by {
            assert(res.0[k] == n[k]);
        }
    } else {
        let j = first_index_of(d, n[i]);
        lemma_first_index_of_props(d, n[i]);
        if j >= 0 {
            let n2 = n.remove(i);
            let d2 = d.remove(j);
            assert forall|k: int| 0 <= k < i implies not_in(#[trigger] n2[k], d2) by {
                assert(n2[k] == n[k]);
                lemma_not_in_remove(n[k], d, j);
            }
            lemma_cancel_from_no_common(i, n2, d2);
            assert(res == cancel_from(i, n2, d2));
        } else {
            lemma_not_in_iff_no_first_index(n[i], d);
            assert forall|k: int| 0 <= k < i + 1 implies not_in(#[trigger] n[k], d) by {
            }
            lemma_cancel_from_no_common(i + 1, n, d);
            assert(res == cancel_from(i + 1, n, d));
        }
    }
}

/// Cancellation does nothing when no member has a match.
proof fn lemma_cancel_from_stable(i: int, n: Seq<Unit>, d: Seq<Unit>)
    requires
        0 <= i <= n.len(),
        forall|k: int| 0 <= k < n.len() ==> not_in(#[trigger] n[k], d),
    ensures
        cancel_from(i, n, d) == (n, d),
    decreases n.len() - i,
{
    if i >= n.len() {
    } else {
        lemma_not_in_iff_no_first_index(n[i], d);
        lemma_cancel_from_stable(i + 1, n, d);
    }
}

/// Simplification is idempotent: a unit that already carries the simplified
/// content of some unit `u` — as every result of `simplify` does — has that
/// same content as its own simplified form, so simplifying twice yields the
/// result of simplifying once.
pub proof fn lemma_simplify_idempotent(u: Unit, r: Unit)
    requires
        unit_num(r) == simp_num(u),
        unit_den(r) == simp_den(u),
        is_flat(r),
    ensures
        simp_num(r) == unit_num(r),
        simp_den(r) == unit_den(r),
{
    lemma_flat_of_flat(r);
    let n = flat_num(u);
    let d = flat_den(u);
    assert forall|k: int| 0 <= k < 0 implies not_in(#[trigger] n[k], d) by {
    }
    lemma_cancel_from_no_common(0, n, d);
    let cn = cancel(n, d).0;
    let cd = cancel(n, d).1;
    lemma_cancel_from_stable(0, cn, cd);
    assert(cancel(cn, cd) == (cn, cd));
}

/// Dividing an atomic unit by itself yields the dimensionless unit: any
/// result with the content of `Atomic(a) / Atomic(a)` is unitless. This
/// holds for every atom of the catalog.
pub proof fn lemma_atomic_div_self_unitless(a: Atom, r: Unit)
    requires
        unit_num(r) == div_pair(Unit::Atomic(a), Unit::Atomic(a)).0,
        unit_den(r) == div_pair(Unit::Atomic(a), Unit::Atomic(a)).1,
    ensures
        unitless_spec(r),
{
    let u = Unit::Atomic(a);
    let one = seq![u];
    assert(unit_num(u) =~= one);
    assert(unit_den(u) =~= Seq::<Unit>::empty());
    assert(one.drop_first() =~= Seq::<Unit>::empty());
    assert(nn_seq(Seq::<Unit>::empty()) =~= Seq::<Unit>::empty());
    assert(dd_seq(Seq::<Unit>::empty()) =~= Seq::<Unit>::empty());
    assert(flat_num(u) =~= one);
    assert(flat_den(u) =~= Seq::<Unit>::empty());
    assert(nn_seq(one) =~= one);
    assert(dd_seq(one) =~= Seq::<Unit>::empty());
    assert(nn_seq(unit_num(u)) + nn_seq(unit_den(u)) + dd_seq(unit_den(u)) + dd_seq(unit_num(u))
        =~= one);
    assert(dd_seq(unit_num(u)) + dd_seq(unit_den(u)) + nn_seq(unit_den(u)) + nn_seq(unit_num(u))
        =~= one);
    assert(first_index_of(one, u) == 0);
    assert(one.remove(0) =~= Seq::<Unit>::empty());
    assert(cancel_from(0, one, one) == cancel_from(
        0,
        Seq::<Unit>::empty(),
        Seq::<Unit>::empty(),
    ));
    assert(cancel_from(0, Seq::<Unit>::empty(), Seq::<Unit>::empty()) == (
        Seq::<Unit>::empty(),
        Seq::<Unit>::empty(),
    ));
    assert(unit_num(r).len() == 0 && unit_den(r).len() == 0);
    match r {
        Unit::Atomic(_) => {
            assert(unit_num(r) =~= seq![r]);
        }
        Unit::Compound(_, _) => {
        }
    }
}

/// Two fraction pairs denote the same rational number.
pub open spec fn req(a: (int, int), b: (int, int)) -> bool {
    a.0 * b.1 == b.0 * a.1
}

/// The textbook raw forms of fraction arithmetic, before any reduction.
pub open spec fn radd(a: (int, int), c: (int, int)) -> (int, int) {
    (a.0 * c.1 + c.0 * a.1, a.1 * c.1)
}

pub open spec fn rsub(a: (int, int), c: (int, int)) -> (int, int) {
    (a.0 * c.1 - c.0 * a.1, a.1 * c.1)
}

pub open spec fn rmul(a: (int, int), c: (int, int)) -> (int, int) {
    (a.0 * c.0, a.1 * c.1)
}

pub open spec fn rdiv(a: (int, int), c: (int, int)) -> (int, int) {
    (a.0 * c.1, a.1 * c.0)
}

proof fn lemma_distrib(x: int, y: int, v: int)
    ensures
        (x + y) * v == x * v + y * v,
        (x - y) * v == x * v - y * v,
{
    assert((x + y) * v == x * v + y * v) by (nonlinear_arith);
    assert((x - y) * v == x * v - y * v) by (nonlinear_arith);
}

/// Denoting the same rational is transitive across a fraction with a
/// nonzero denominator.
pub proof fn lemma_req_trans(a: (int, int), b: (int, int), c: (int, int))
    requires
        req(a, b),
        req(b, c),
        b.1 != 0,
    ensures
        req(a, c),
{
    let a0 = a.0;
    let a1 = a.1;
    let b0 = b.0;
    let b1 = b.1;
    let c0 = c.0;
    let c1 = c.1;
    assert(a0 * c1 == c0 * a1) by (nonlinear_arith)
        requires
            a0 * b1 == b0 * a1,
            b0 * c1 == c0 * b1,
            b1 != 0,
    ;
}

/// The raw operations respect rational equality of the left operand.
pub proof fn lemma_req_cong(a: (int, int), b: (int, int), c: (int, int))
    requires
        req(a, b),
    ensures
        req(radd(a, c), radd(b, c)),
        req(rsub(a, c), rsub(b, c)),
        req(rmul(a, c), rmul(b, c)),
        req(rdiv(a, c), rdiv(b, c)),
{
    let a0 = a.0;
    let a1 = a.1;
    let b0 = b.0;
    let b1 = b.1;
    let c0 = c.0;
    let c1 = c.1;
    let v = b1 * c1;
    let w = a1 * c1;
    lemma_distrib(a0 * c1, c0 * a1, v);
    lemma_distrib(b0 * c1, c0 * b1, w);
    assert((a0 * c1) * v == (a0 * b1) * (c1 * c1)) by (nonlinear_arith)
        requires
            v == b1 * c1,
    ;
    assert((c0 * a1) * v == (c0 * c1) * (a1 * b1)) by (nonlinear_arith)
        requires
            v == b1 * c1,
    ;
    assert((b0 * c1) * w == (b0 * a1) * (c1 * c1)) by (nonlinear_arith)
        requires
            w == a1 * c1,
    ;
    assert((c0 * b1) * w == (c0 * c1) * (a1 * b1)) by (nonlinear_arith)
        requires
            w == a1 * c1,
    ;
    assert((a0 * c0) * (b1 * c1) == (b0 * c0) * (a1 * c1)) by (nonlinear_arith)
        requires
            a0 * b1 == b0 * a1,
    ;
    assert((a0 * c1) * (b1 * c0) == (b0 * c1) * (a1 * c0)) by (nonlinear_arith)
        requires
            a0 * b1 == b0 * a1,
    ;
}

/// Reduction to lowest terms preserves the denoted rational, yields a
/// positive denominator, and keeps a nonzero numerator nonzero.
pub proof fn lemma_rat_reduce_value(n: int, d: int)
    requires
        d != 0,
    ensures
        ({
            let r = rat_reduce(n, d);
            &&& req(r, (n, d))
            &&& r.1 > 0
            &&& (n != 0 ==> r.0 != 0)
            &&& (n == 0 ==> r.0 == 0)
        }),
{
    let r = rat_reduce(n, d);
    if n == 0 {
        assert(0int * d == n * 1);
    } else if n == d {
        assert(1int * d == n * 1);
    } else {
        let g = int_gcd(n, d);
        lemma_int_gcd(n, d);
        lemma_trunc_div_exact(n, g);
        lemma_trunc_div_exact(d, g);
        let n2 = trunc_div(n, g);
        let d2 = trunc_div(d, g);
        assert(n2 * d == n * d2) by (nonlinear_arith)
            requires
                g * n2 == n,
                g * d2 == d,
                g != 0,
        ;
        if d2 < 0 {
            assert((-n2) * d == n * (-d2)) by (nonlinear_arith)
                requires
                    n2 * d == n * d2,
            ;
        }
    }
}

/// The least common multiple of two nonzero integers is a positive common
/// multiple of both.
pub proof fn lemma_lcm_divides(a: int, b: int)
    requires
        a != 0,
        b != 0,
    ensures
        divides(a, int_lcm(a, b)),
        divides(b, int_lcm(a, b)),
        int_lcm(a, b) > 0,
{
    let g = int_gcd(a, b);
    lemma_int_gcd(a, b);
    lemma_trunc_div_exact(b, g);
    let t = trunc_div(b, g);
    let qa = choose|k: int| a == #[trigger] (g * k);
    assert(a * t == qa * b) by (nonlinear_arith)
        requires
            a == g * qa,
            g * t == b,
    ;
    lemma_int_lcm_nonzero(a, b);
    let l = int_lcm(a, b);
    assert(l == abs_int(a * t));
    if a * t >= 0 {
        assert(l == a * t);
        assert(l == b * qa) by (nonlinear_arith)
            requires
                a * t == qa * b,
                l == a * t,
        ;
    } else {
        assert(l == -(a * t));
        assert(l == a * (-t)) by (nonlinear_arith)
            requires
                l == -(a * t),
        ;
        assert(l == b * (-qa)) by (nonlinear_arith)
            requires
                a * t == qa * b,
                l == -(a * t),
        ;
    }
}

/// Reducing addition computes the raw cross-multiplied sum.
pub proof fn lemma_rat_add_value(a: (int, int), c: (int, int))
    requires
        a.1 != 0,
        c.1 != 0,
    ensures
        ({
            let r = rat_add(a.0, a.1, c.0, c.1);
            &&& req(r, radd(a, c))
            &&& r.1 > 0
        }),
{
    let r = rat_add(a.0, a.1, c.0, c.1);
    let target = radd(a, c);
    if a.1 == c.1 {
        lemma_rat_reduce_value(a.0 + c.0, c.1);
        assert((a.0 + c.0) * (a.1 * c.1) == (a.0 * c.1 + c.0 * a.1) * c.1) by (nonlinear_arith)
            requires
                a.1 == c.1,
        ;
        lemma_req_trans(r, (a.0 + c.0, c.1), target);
    } else {
        let l = int_lcm(a.1, c.1);
        lemma_lcm_divides(a.1, c.1);
        lemma_trunc_div_exact(l, a.1);
        lemma_trunc_div_exact(l, c.1);
        let qa = trunc_div(l, a.1);
        let qc = trunc_div(l, c.1);
        let raw = (a.0 * qa + c.0 * qc, l);
        lemma_rat_reduce_value(raw.0, l);
        let w = a.1 * c.1;
        lemma_distrib(a.0 * qa, c.0 * qc, w);
        assert((a.0 * qa) * w == (a.0 * c.1) * (a.1 * qa)) by (nonlinear_arith)
            requires
                w == a.1 * c.1,
        ;
        assert((c.0 * qc) * w == (c.0 * a.1) * (c.1 * qc)) by (nonlinear_arith)
            requires
                w == a.1 * c.1,
        ;
        lemma_distrib(a.0 * c.1, c.0 * a.1, l);
        lemma_req_trans(r, raw, target);
    }
}

/// Reducing subtraction computes the raw cross-multiplied difference.
pub proof fn lemma_rat_sub_value(a: (int, int), c: (int, int))
    requires
        a.1 != 0,
        c.1 != 0,
    ensures
        ({
            let r = rat_sub(a.0, a.1, c.0, c.1);
            &&& req(r, rsub(a, c))
            &&& r.1 > 0
        }),
{
    let r = rat_sub(a.0, a.1, c.0, c.1);
    let target = rsub(a, c);
    if a.1 == c.1 {
        lemma_rat_reduce_value(a.0 - c.0, c.1);
        assert((a.0 - c.0) * (a.1 * c.1) == (a.0 * c.1 - c.0 * a.1) * c.1) by (nonlinear_arith)
            requires
                a.1 == c.1,
        ;
        lemma_req_trans(r, (a.0 - c.0, c.1), target);
    } else {
        let l = int_lcm(a.1, c.1);
        lemma_lcm_divides(a.1, c.1);
        lemma_trunc_div_exact(l, a.1);
        lemma_trunc_div_exact(l, c.1);
        let qa = trunc_div(l, a.1);
        let qc = trunc_div(l, c.1);
        let raw = (a.0 * qa - c.0 * qc, l);
        lemma_rat_reduce_value(raw.0, l);
        let w = a.1 * c.1;
        lemma_distrib(a.0 * qa, c.0 * qc, w);
        assert((a.0 * qa) * w == (a.0 * c.1) * (a.1 * qa)) by (nonlinear_arith)
            requires
                w == a.1 * c.1,
        ;
        assert((c.0 * qc) * w == (c.0 * a.1) * (c.1 * qc)) by (nonlinear_arith)
            requires
                w == a.1 * c.1,
        ;
        lemma_distrib(a.0 * c.1, c.0 * a.1, l);
        lemma_req_trans(r, raw, target);
    }
}

/// Cross-cancelling multiplication computes the raw product.
pub proof fn lemma_rat_mul_value(a: (int, int), c: (int, int))
    requires
        a.1 != 0,
        c.1 != 0,
    ensures
        ({
            let r = rat_mul(a.0, a.1, c.0, c.1);
            &&& req(r, rmul(a, c))
            &&& r.1 > 0
        }),
{
    let r = rat_mul(a.0, a.1, c.0, c.1);
    let g1 = int_gcd(a.0, c.1);
    let g2 = int_gcd(a.1, c.0);
    lemma_int_gcd(a.0, c.1);
    lemma_int_gcd(a.1, c.0);
    lemma_trunc_div_exact(a.0, g1);
    lemma_trunc_div_exact(c.0, g2);
    lemma_trunc_div_exact(a.1, g2);
    lemma_trunc_div_exact(c.1, g1);
    let an = trunc_div(a.0, g1);
    let cn = trunc_div(c.0, g2);
    let ad = trunc_div(a.1, g2);
    let cd = trunc_div(c.1, g1);
    let raw = (an * cn, ad * cd);
    assert(ad * cd != 0) by (nonlinear_arith)
        requires
            ad != 0,
            cd != 0,
    ;
    lemma_rat_reduce_value(raw.0, raw.1);
    assert((an * cn) * ((g2 * ad) * (g1 * cd)) == ((g1 * an) * (g2 * cn)) * (ad * cd))
        by (nonlinear_arith);
    assert((an * cn) * (a.1 * c.1) == (an * cn) * ((g2 * ad) * (g1 * cd))) by (nonlinear_arith)
        requires
            g2 * ad == a.1,
            g1 * cd == c.1,
    ;
    lemma_req_trans(r, raw, rmul(a, c));
}

/// Cross-cancelling division computes the raw quotient; the divisor must
/// denote a nonzero rational.
pub proof fn lemma_rat_div_value(a: (int, int), c: (int, int))
    requires
        a.1 != 0,
        c.1 != 0,
        c.0 != 0,
    ensures
        ({
            let r = rat_div(a.0, a.1, c.0, c.1);
            &&& req(r, rdiv(a, c))
            &&& r.1 > 0
        }),
{
    let r = rat_div(a.0, a.1, c.0, c.1);
    let g1 = int_gcd(a.0, c.0);
    let g2 = int_gcd(a.1, c.1);
    lemma_int_gcd(a.0, c.0);
    lemma_int_gcd(a.1, c.1);
    lemma_trunc_div_exact(a.0, g1);
    lemma_trunc_div_exact(c.0, g1);
    lemma_trunc_div_exact(a.1, g2);
    lemma_trunc_div_exact(c.1, g2);
    let an = trunc_div(a.0, g1);
    let cn = trunc_div(c.0, g1);
    let ad = trunc_div(a.1, g2);
    let cd = trunc_div(c.1, g2);
    let raw = (an * cd, ad * cn);
    assert(ad * cn != 0) by (nonlinear_arith)
        requires
            ad != 0,
            cn != 0,
    ;
    lemma_rat_reduce_value(raw.0, raw.1);
    assert((an * cd) * ((g2 * ad) * (g1 * cn)) == ((g1 * an) * (g2 * cd)) * (ad * cn))
        by (nonlinear_arith);
    assert((an * cd) * (a.1 * c.0) == (an * cd) * ((g2 * ad) * (g1 * cn))) by (nonlinear_arith)
        requires
            g2 * ad == a.1,
            g1 * cn == c.0,
    ;
    lemma_req_trans(r, raw, rdiv(a, c));
}

proof fn lemma_nz(x: int, y: int)
    requires
        x != 0,
        y != 0,
    ensures
        x * y != 0,
{
    assert(x * y != 0) by (nonlinear_arith)
        requires
            x != 0,
            y != 0,
    ;
}

/// Subtracting then adding the same fraction is the identity, at the level
/// of denoted rationals; and so are the other three inverse pairs.
proof fn lemma_affine_cancellations(x: (int, int), o: (int, int), s: (int, int))
    ensures
        req(radd(rsub(x, o), o), x),
        req(rsub(radd(x, o), o), x),
        req(rmul(rdiv(x, s), s), x),
        req(rdiv(rmul(x, s), s), x),
{
    let x0 = x.0;
    let x1 = x.1;
    let o0 = o.0;
    let o1 = o.1;
    let s0 = s.0;
    let s1 = s.1;
    lemma_distrib(x0 * o1, o0 * x1, o1);
    assert((o0 * x1) * o1 == o0 * (x1 * o1)) by (nonlinear_arith);
    assert(((x0 * o1) * o1) * x1 == x0 * ((x1 * o1) * o1)) by (nonlinear_arith);
    assert(((x0 * s1) * s0) * x1 == x0 * ((x1 * s0) * s1)) by (nonlinear_arith);
    assert(((x0 * s0) * s1) * x1 == x0 * ((x1 * s1) * s0)) by (nonlinear_arith);
}

/// Every atom of the catalog has a positive offset denominator and a
/// nonzero slope with a positive denominator.
pub proof fn lemma_atom_tables_wf(a: Atom)
    ensures
        crate::catalog::atom_offset(a).1 > 0,
        crate::catalog::atom_slope(a).0 != 0,
        crate::catalog::atom_slope(a).1 > 0,
{
}

proof fn lemma_off_fold_wf(s: Seq<Unit>, acc: (int, int))
    requires
        acc.1 != 0,
    ensures
        crate::catalog::off_fold(s, acc).1 != 0,
    decreases s.len(),
{
    if s.len() == 0 {
    } else {
        let o = crate::catalog::atom_offset(crate::catalog::atom_of(s[0]));
        lemma_atom_tables_wf(crate::catalog::atom_of(s[0]));
        lemma_rat_add_value(acc, o);
        lemma_off_fold_wf(s.drop_first(), rat_add(acc.0, acc.1, o.0, o.1));
    }
}

proof fn lemma_slope_fold_wf(s: Seq<Unit>, invert: bool, acc: (int, int))
    requires
        acc.0 != 0,
        acc.1 != 0,
    ensures
        crate::catalog::slope_fold(s, invert, acc).0 != 0,
        crate::catalog::slope_fold(s, invert, acc).1 != 0,
    decreases s.len(),
{
    if s.len() == 0 {
    } else {
        let sl = crate::catalog::atom_slope(crate::catalog::atom_of(s[0]));
        lemma_atom_tables_wf(crate::catalog::atom_of(s[0]));
        if invert {
            lemma_nz(acc.0, sl.1);
            lemma_nz(acc.1, sl.0);
            lemma_slope_fold_wf(s.drop_first(), invert, (acc.0 * sl.1, acc.1 * sl.0));
        } else {
            lemma_nz(acc.0, sl.0);
            lemma_nz(acc.1, sl.1);
            lemma_slope_fold_wf(s.drop_first(), invert, (acc.0 * sl.0, acc.1 * sl.1));
        }
    }
}

/// The accumulated offset of any unit is a well-formed fraction and its
/// accumulated slope denotes a nonzero rational.
pub proof fn lemma_si_tables_wf(u: Unit)
    ensures
        crate::catalog::si_offset(u).1 != 0,
        crate::catalog::si_slope(u).0 != 0,
        crate::catalog::si_slope(u).1 != 0,
{
    if u is Atomic {
        lemma_atom_tables_wf(crate::catalog::atom_of(u));
    } else {
        lemma_off_fold_wf(flat_num(u), (0int, 1int));
        lemma_off_fold_wf(flat_den(u), crate::catalog::off_fold(flat_num(u), (0int, 1int)));
        lemma_slope_fold_wf(flat_num(u), false, (1int, 1int));
        let inner = crate::catalog::slope_fold(flat_num(u), false, (1int, 1int));
        lemma_slope_fold_wf(flat_den(u), true, inner);
        let raw = crate::catalog::slope_fold(flat_den(u), true, inner);
        lemma_rat_reduce_value(raw.0, raw.1);
    }
}

/// A fraction in lowest terms with a positive denominator: the normal form
/// in which the library's reducing constructors leave their results.
pub open spec fn is_normal(p: (int, int)) -> bool {
    p.1 > 0 && int_gcd(p.0, p.1) == 1
}

proof fn lemma_divides_neg(c: int, x: int)
    requires
        divides(c, x),
    ensures
        divides(c, -x),
        divides(c, abs_int(x)),
{
    let k = choose|k: int| x == #[trigger] (c * k);
    assert(-x == c * (-k)) by (nonlinear_arith)
        requires
            x == c * k,
    ;
}

/// The greatest common divisor is symmetric.
proof fn lemma_gcd_nat_sym(a: nat, b: nat)
    ensures
        crate::gcd::gcd_nat(a, b) == crate::gcd::gcd_nat(b, a),
{
    let g1 = crate::gcd::gcd_nat(a, b);
    let g2 = crate::gcd::gcd_nat(b, a);
    crate::gcd::lemma_gcd_nat_divides(a, b);
    crate::gcd::lemma_gcd_nat_divides(b, a);
    crate::gcd::lemma_gcd_greatest(b, a, g1 as int);
    crate::gcd::lemma_gcd_greatest(a, b, g2 as int);
    crate::gcd::lemma_gcd_nat_zero(a, b);
    crate::gcd::lemma_gcd_nat_zero(b, a);
    if a == 0 && b == 0 {
    } else {
        crate::gcd::lemma_divides_bound(g1 as int, g2 as int);
        crate::gcd::lemma_divides_bound(g2 as int, g1 as int);
    }
}

/// Euclid's lemma over the integers: a positive value coprime to `d` that
/// divides `d * e` divides `e`.
proof fn lemma_int_coprime_divides(c: int, d: int, e: int)
    requires
        c > 0,
        int_gcd(d, c) == 1,
        divides(c, d * e),
    ensures
        divides(c, e),
{
    if e == 0 {
        assert(e == c * 0);
    } else {
        lemma_gcd_nat_sym(abs_int(d) as nat, c as nat);
        assert(crate::gcd::gcd_nat(c as nat, abs_int(d) as nat) == 1);
        lemma_divides_neg(c, d * e);
        assert(abs_int(d * e) == abs_int(d) * abs_int(e)) by (nonlinear_arith);
        assert((abs_int(d) as nat * abs_int(e) as nat) as int == abs_int(d) * abs_int(e))
            by (nonlinear_arith);
        crate::gcd::lemma_coprime_divides(
            c as nat,
            abs_int(d) as nat,
            abs_int(e) as nat,
        );
        let k = choose|k: int| abs_int(e) == #[trigger] (c * k);
        if e < 0 {
            assert(e == c * (-k)) by (nonlinear_arith)
                requires
                    abs_int(e) == c * k,
                    e == -abs_int(e),
            ;
        }
    }
}

/// Two normal fractions that denote the same rational are identical: the
/// reduced form of a rational number is unique.
pub proof fn lemma_normal_unique(a: (int, int), b: (int, int))
    requires
        req(a, b),
        is_normal(a),
        is_normal(b),
    ensures
        a == b,
{
    assert(divides(a.1, a.0 * b.1)) by {
        assert(a.0 * b.1 == a.1 * b.0) by (nonlinear_arith)
            requires
                a.0 * b.1 == b.0 * a.1,
        ;
    }
    lemma_int_coprime_divides(a.1, a.0, b.1);
    assert(divides(b.1, b.0 * a.1)) by {
        assert(b.0 * a.1 == b.1 * a.0) by (nonlinear_arith)
            requires
                a.0 * b.1 == b.0 * a.1,
        ;
    }
    lemma_int_coprime_divides(b.1, b.0, a.1);
    crate::gcd::lemma_divides_bound(a.1, b.1);
    crate::gcd::lemma_divides_bound(b.1, a.1);
    assert(a.1 == b.1);
    assert(a.0 == b.0) by (nonlinear_arith)
        requires
            a.0 * b.1 == b.0 * a.1,
            a.1 == b.1,
            a.1 > 0,
    ;
}

/// Reduction leaves a fraction in its unique normal form.
pub proof fn lemma_rat_reduce_normal(n: int, d: int)
    requires
        d != 0,
    ensures
        is_normal(rat_reduce(n, d)),
{
    lemma_rat_reduce_value(n, d);
    if n == 0 {
        assert(crate::gcd::gcd_nat(0, 1) == crate::gcd::gcd_nat(1, 0));
        assert(int_gcd(0, 1) == 1);
    } else if n == d {
        assert(crate::gcd::gcd_nat(1, 1) == crate::gcd::gcd_nat(1, 0));
        assert(int_gcd(1, 1) == 1);
    } else {
        let g = int_gcd(n, d);
        lemma_int_gcd(n, d);
        lemma_trunc_div_exact(n, g);
        lemma_trunc_div_exact(d, g);
        let n2 = trunc_div(n, g);
        let d2 = trunc_div(d, g);
        let g2 = int_gcd(n2, d2);
        lemma_int_gcd(n2, d2);
        let kn = choose|k: int| n2 == #[trigger] (g2 * k);
        let kd = choose|k: int| d2 == #[trigger] (g2 * k);
        assert(n == (g * g2) * kn) by (nonlinear_arith)
            requires
                g * n2 == n,
                n2 == g2 * kn,
        ;
        assert(d == (g * g2) * kd) by (nonlinear_arith)
            requires
                g * d2 == d,
                d2 == g2 * kd,
        ;
        assert(divides(g * g2, n));
        assert(divides(g * g2, d));
        lemma_divides_neg(g * g2, n);
        lemma_divides_neg(g * g2, d);
        crate::gcd::lemma_gcd_greatest(
            abs_int(n) as nat,
            abs_int(d) as nat,
            g * g2,
        );
        crate::gcd::lemma_divides_bound(g * g2, g);
        assert(abs_int(g * g2) == g * g2) by (nonlinear_arith)
            requires
                g > 0,
                g2 > 0,
        ;
        assert(g2 <= 1) by (nonlinear_arith)
            requires
                g * g2 <= g,
                g > 0,
                g2 > 0,
        ;
        if d2 < 0 {
            assert(abs_int(-n2) == abs_int(n2) && abs_int(-d2) == abs_int(d2));
            assert(int_gcd(-n2, -d2) == int_gcd(n2, d2));
        }
    }
}

/// Subtraction of well-formed fractions lands in normal form.
proof fn lemma_rat_sub_normal(a: (int, int), c: (int, int))
    requires
        a.1 != 0,
        c.1 != 0,
    ensures
        is_normal(rat_sub(a.0, a.1, c.0, c.1)),
{
    if a.1 == c.1 {
        lemma_rat_reduce_normal(a.0 - c.0, c.1);
    } else {
        lemma_lcm_divides(a.1, c.1);
        let l = int_lcm(a.1, c.1);
        lemma_trunc_div_exact(l, a.1);
        lemma_trunc_div_exact(l, c.1);
        lemma_rat_reduce_normal(a.0 * trunc_div(l, a.1) - c.0 * trunc_div(l, c.1), l);
    }
}

/// The round-trip law: converting a magnitude from one unit to another and
/// back reproduces the original magnitude exactly — for every pair of
/// units, and so in particular for every atomic unit of the catalog with
/// its offset and slope. The result denotes the same rational number as
/// the original, and is the very same fraction whenever the original was
/// already in normal form.
pub proof fn lemma_convert_round_trip(m: (int, int), from: Unit, to: Unit)
    requires
        m.1 != 0,
    ensures
        ({
            let back = convert_mag(convert_mag(m, from, to), to, from);
            &&& back.1 > 0
            &&& req(back, m)
            &&& is_normal(m) ==> back == m
        }),
{
    lemma_si_tables_wf(from);
    lemma_si_tables_wf(to);
    let o1 = crate::catalog::si_offset(from);
    let s1 = crate::catalog::si_slope(from);
    let o2 = crate::catalog::si_offset(to);
    let s2 = crate::catalog::si_slope(to);
    let za = radd(m, o1);
    let zb = rmul(za, s1);
    let zc = rdiv(zb, s2);
    let zd = rsub(zc, o2);
    lemma_nz(m.1, o1.1);
    lemma_nz(za.1, s1.1);
    lemma_nz(zb.1, s2.0);
    lemma_nz(zc.1, o2.1);

    let v1 = rat_add(m.0, m.1, o1.0, o1.1);
    lemma_rat_add_value(m, o1);
    let v2 = rat_mul(v1.0, v1.1, s1.0, s1.1);
    lemma_rat_mul_value(v1, s1);
    lemma_req_cong(v1, za, s1);
    lemma_nz(v1.1, s1.1);
    lemma_req_trans(v2, rmul(v1, s1), zb);
    let v3 = rat_div(v2.0, v2.1, s2.0, s2.1);
    lemma_rat_div_value(v2, s2);
    lemma_req_cong(v2, zb, s2);
    lemma_nz(v2.1, s2.0);
    lemma_req_trans(v3, rdiv(v2, s2), zc);
    let v4 = rat_sub(v3.0, v3.1, o2.0, o2.1);
    lemma_rat_sub_value(v3, o2);
    lemma_req_cong(v3, zc, o2);
    lemma_nz(v3.1, o2.1);
    lemma_req_trans(v4, rsub(v3, o2), zd);
    assert(v4 == convert_mag(m, from, to));

    lemma_affine_cancellations(zc, o2, s2);
    lemma_affine_cancellations(zb, o1, s2);
    lemma_affine_cancellations(za, o1, s1);
    lemma_affine_cancellations(m, o1, s1);

    let w1 = rat_add(v4.0, v4.1, o2.0, o2.1);
    lemma_rat_add_value(v4, o2);
    lemma_req_cong(v4, zd, o2);
    lemma_nz(v4.1, o2.1);
    lemma_req_trans(w1, radd(v4, o2), radd(zd, o2));
    lemma_nz(zd.1, o2.1);
    lemma_req_trans(w1, radd(zd, o2), zc);

    let w2 = rat_mul(w1.0, w1.1, s2.0, s2.1);
    lemma_rat_mul_value(w1, s2);
    lemma_req_cong(w1, zc, s2);
    lemma_nz(w1.1, s2.1);
    lemma_req_trans(w2, rmul(w1, s2), rmul(zc, s2));
    lemma_nz(zc.1, s2.1);
    lemma_req_trans(w2, rmul(zc, s2), zb);

    let w3 = rat_div(w2.0, w2.1, s1.0, s1.1);
    lemma_rat_div_value(w2, s1);
    lemma_req_cong(w2, zb, s1);
    lemma_nz(w2.1, s1.0);
    lemma_req_trans(w3, rdiv(w2, s1), rdiv(zb, s1));
    lemma_nz(zb.1, s1.0);
    lemma_req_trans(w3, rdiv(zb, s1), za);

    let w4 = rat_sub(w3.0, w3.1, o1.0, o1.1);
    lemma_rat_sub_value(w3, o1);
    lemma_req_cong(w3, za, o1);
    lemma_nz(w3.1, o1.1);
    lemma_req_trans(w4, rsub(w3, o1), rsub(za, o1));
    lemma_nz(za.1, o1.1);
    lemma_req_trans(w4, rsub(za, o1), m);
    assert(w4 == convert_mag(convert_mag(m, from, to), to, from));
    lemma_rat_sub_normal(w3, o1);
    if is_normal(m) {
        lemma_normal_unique(w4, m);
    }
}

} // verus!
