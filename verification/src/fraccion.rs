//! Exact comparison of non-negative fractions.

use vstd::prelude::*;

verus! {

/// `a / b > c / d` for positive denominators.
pub open spec fn mayor(a: int, b: int, c: int, d: int) -> bool {
    a * d > c * b
}

proof fn lema_division(a: int, b: int)
    requires
        a >= 0,
        b > 0,
    ensures
        a == (a / b) * b + a % b,
        0 <= a % b < b,
        a / b >= 0,
{
    vstd::arithmetic::div_mod::lemma_fundamental_div_mod(a, b);
    vstd::arithmetic::div_mod::lemma_mod_bound(a, b);
    vstd::arithmetic::div_mod::lemma_div_pos_is_pos(a, b);
    assert(a == (a / b) * b + a % b) by (nonlinear_arith)
        requires a == b * (a / b) + a % b;
}

proof fn lema_cocientes_distintos(q1: int, r1: int, b: int, q2: int, r2: int, d: int)
    requires
        b > 0,
        d > 0,
        0 <= r1 < b,
        0 <= r2 < d,
        q1 > q2,
        q2 >= 0,
    ensures
        (q1 * b + r1) * d > (q2 * d + r2) * b,
{
    assert((q1 * b + r1) * d >= (q2 + 1) * b * d) by (nonlinear_arith)
        requires b > 0, d > 0, 0 <= r1, q1 >= q2 + 1, q2 >= 0;
    assert((q2 * d + r2) * b < (q2 + 1) * b * d) by (nonlinear_arith)
        requires b > 0, d > 0, r2 < d, q2 >= 0;
}

proof fn lema_cocientes_iguales(q: int, r1: int, b: int, r2: int, d: int)
    requires
        b > 0,
        d > 0,
    ensures
        ((q * b + r1) * d > (q * d + r2) * b) == (r1 * d > r2 * b),
{
    assert((q * b + r1) * d == q * b * d + r1 * d) by (nonlinear_arith);
    assert((q * d + r2) * b == q * b * d + r2 * b) by (nonlinear_arith);
}

/// Whether `a / b > c / d`, compared by their integer parts and then their
/// remainders, so that no product is formed.
pub fn mayor_fraccion(a: u128, b: u128, c: u128, d: u128) -> (r: bool)
    requires
        b > 0,
        d > 0,
    ensures
        r == mayor(a as int, b as int, c as int, d as int),
    decreases b + d,
{
    let q1 = a / b;
    let q2 = c / d;
    let r1 = a % b;
    let r2 = c % d;
    proof {
        lema_division(a as int, b as int);
        lema_division(c as int, d as int);
    }
    if q1 > q2 {
        proof {
            lema_cocientes_distintos(q1 as int, r1 as int, b as int, q2 as int, r2 as int, d as int);
        }
        return true;
    }
    if q2 > q1 {
        proof {
            lema_cocientes_distintos(q2 as int, r2 as int, d as int, q1 as int, r1 as int, b as int);
        }
        return false;
    }
    proof {
        lema_cocientes_iguales(q1 as int, r1 as int, b as int, r2 as int, d as int);
    }
    if r1 == 0 {
        assert(r1 * d == 0) by (nonlinear_arith)
            requires r1 == 0;
        assert(r2 * b >= 0) by (nonlinear_arith)
            requires r2 >= 0, b > 0;
        return false;
    }
    if r2 == 0 {
        assert(r1 * d > 0) by (nonlinear_arith)
            requires r1 > 0, d > 0;
        return true;
    }
    // r1 / b > r2 / d exactly when d / r2 > b / r1.
    let r = mayor_fraccion(d, r2, b, r1);
    assert((d * r1 > b * r2) == (r1 * d > r2 * b)) by (nonlinear_arith);
    r
}

/// `>` between fractions with positive denominators is transitive.
pub proof fn lema_mayor_transitivo(a: int, b: int, c: int, d: int, e: int, f: int)
    requires
        b > 0,
        d > 0,
        f > 0,
        mayor(a, b, c, d),
        mayor(c, d, e, f),
    ensures
        mayor(a, b, e, f),
{
    assert(a * d * f > c * b * f) by (nonlinear_arith)
        requires a * d > c * b, f > 0;
    assert(c * f * b > e * d * b) by (nonlinear_arith)
        requires c * f > e * d, b > 0;
    assert(a * f * d > e * b * d) by (nonlinear_arith)
        requires a * d * f > c * b * f, c * f * b > e * d * b;
    assert(a * f > e * b) by (nonlinear_arith)
        requires a * f * d > e * b * d, d > 0;
}

} // verus!
