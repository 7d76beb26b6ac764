//! Greatest common divisors and the facts about reduced fractions that the
//! rational type rests on.
use vstd::prelude::*;
use vstd::arithmetic::div_mod::{lemma_fundamental_div_mod, lemma_mod_multiples_basic};

verus! {

/// The greatest common divisor of two naturals, by Euclid's recursion;
/// `gcd_spec(0, 0)` is `0`.
pub open spec fn gcd_spec(a: nat, b: nat) -> nat
    decreases b,
{
    if b == 0 {
        a
    } else {
        gcd_spec(b, a % b)
    }
}

/// The absolute value of an integer, as a natural.
pub open spec fn abs_spec(x: int) -> nat {
    if x < 0 {
        (-x) as nat
    } else {
        x as nat
    }
}

/// `d` divides `x`.
pub open spec fn divides(d: int, x: int) -> bool {
    exists|k: int| x == #[trigger] (k * d)
}

/// A pair of integers is a fraction in lowest terms with a positive
/// denominator.
pub open spec fn is_reduced(n: int, d: int) -> bool {
    d > 0 && gcd_spec(abs_spec(n), d as nat) == 1
}

/// The first Bezout coefficient of `a` and `b`.
pub open spec fn bezout_x(a: nat, b: nat) -> int
    decreases b,
{
    if b == 0 {
        1
    } else {
        bezout_y(b, a % b)
    }
}

/// The second Bezout coefficient of `a` and `b`.
pub open spec fn bezout_y(a: nat, b: nat) -> int
    decreases b,
{
    if b == 0 {
        0
    } else {
        bezout_x(b, a % b) - (a / b) * bezout_y(b, a % b)
    }
}

/// The gcd is an integer combination of its arguments.
pub proof fn lemma_bezout(a: nat, b: nat)
    ensures
        a * bezout_x(a, b) + b * bezout_y(a, b) == gcd_spec(a, b),
    decreases b,
{
    if b == 0 {
    } else {
        let r = a % b;
        let q = a / b;
        lemma_bezout(b, r);
        lemma_fundamental_div_mod(a as int, b as int);
        let x1 = bezout_x(b, r);
        let y1 = bezout_y(b, r);
        assert(a * y1 + b * (x1 - q * y1) == b * x1 + r * y1) by (nonlinear_arith)
            requires
                a == b * q + r,
        ;
    }
}

/// The gcd divides both arguments, and is positive unless both are zero.
pub proof fn lemma_gcd_divides(a: nat, b: nat)
    ensures
        divides(gcd_spec(a, b) as int, a as int),
        divides(gcd_spec(a, b) as int, b as int),
        a > 0 || b > 0 ==> gcd_spec(a, b) > 0,
    decreases b,
{
    let g = gcd_spec(a, b) as int;
    if b == 0 {
        assert(a as int == 1 * g);
        assert(b as int == 0 * g);
    } else {
        let r = a % b;
        let q = a / b;
        lemma_gcd_divides(b, r);
        lemma_fundamental_div_mod(a as int, b as int);
        let kb = choose|k: int| b as int == #[trigger] (k * g);
        let kr = choose|k: int| r as int == #[trigger] (k * g);
        assert(a as int == (kb * q + kr) * g) by (nonlinear_arith)
            requires
                a == b * q + r,
                b as int == kb * g,
                r as int == kr * g,
        ;
    }
}

/// Dividing both arguments by their gcd leaves coprime numbers.
pub proof fn lemma_quotients_coprime(a: nat, b: nat)
    requires
        a > 0 || b > 0,
    ensures
        gcd_spec(a, b) > 0,
        a % gcd_spec(a, b) == 0,
        b % gcd_spec(a, b) == 0,
        gcd_spec(a / gcd_spec(a, b), b / gcd_spec(a, b)) == 1,
{
    let g = gcd_spec(a, b);
    lemma_gcd_divides(a, b);
    lemma_bezout(a, b);
    let ka = choose|k: int| a as int == #[trigger] (k * (g as int));
    let kb = choose|k: int| b as int == #[trigger] (k * (g as int));
    lemma_mod_multiples_basic(ka, g as int);
    lemma_mod_multiples_basic(kb, g as int);
    lemma_fundamental_div_mod(a as int, g as int);
    lemma_fundamental_div_mod(b as int, g as int);
    let a1 = a / g;
    let b1 = b / g;
    let x = bezout_x(a, b);
    let y = bezout_y(a, b);
    assert(a1 * x + b1 * y == 1) by (nonlinear_arith)
        requires
            a * x + b * y == g,
            a == g * a1,
            b == g * b1,
            g > 0,
    ;
    let h = gcd_spec(a1, b1) as int;
    lemma_gcd_divides(a1, b1);
    let ha = choose|k: int| a1 as int == #[trigger] (k * h);
    let hb = choose|k: int| b1 as int == #[trigger] (k * h);
    let t = ha * x + hb * y;
    assert(t * h == 1) by (nonlinear_arith)
        requires
            a1 * x + b1 * y == 1,
            a1 as int == ha * h,
            b1 as int == hb * h,
            t == ha * x + hb * y,
    ;
    assert(h == 1) by (nonlinear_arith)
        requires
            t * h == 1,
            h >= 0,
    ;
}

/// Euclid's lemma: a number coprime to `n` that divides `n * m` divides `m`.
pub proof fn lemma_coprime_divides_product(d: nat, n: nat, m: int)
    requires
        gcd_spec(n, d) == 1,
        divides(d as int, n * m),
    ensures
        divides(d as int, m),
{
    lemma_bezout(n, d);
    let x = bezout_x(n, d);
    let y = bezout_y(n, d);
    let k = choose|k: int| n * m == #[trigger] (k * (d as int));
    assert(m == (k * x + y * m) * (d as int)) by (nonlinear_arith)
        requires
            n * x + d * y == 1,
            n * m == k * (d as int),
    ;
}

/// Two positive numbers that divide each other are equal.
pub proof fn lemma_divides_antisymmetric(a: int, b: int)
    requires
        a > 0,
        b > 0,
        divides(a, b),
        divides(b, a),
    ensures
        a == b,
{
    let k = choose|k: int| b == #[trigger] (k * a);
    let l = choose|l: int| a == #[trigger] (l * b);
    assert(a == b) by (nonlinear_arith)
        requires
            a > 0,
            b > 0,
            b == k * a,
            a == l * b,
    ;
}

/// A fraction has only one representation in lowest terms.
pub proof fn lemma_reduced_unique(n1: int, d1: int, n2: int, d2: int)
    requires
        is_reduced(n1, d1),
        is_reduced(n2, d2),
        n1 * d2 == n2 * d1,
    ensures
        n1 == n2,
        d1 == d2,
{
    let a1 = abs_spec(n1);
    let a2 = abs_spec(n2);
    assert(a1 * d2 == a2 * d1) by (nonlinear_arith)
        requires
            n1 * d2 == n2 * d1,
            d1 > 0,
            d2 > 0,
            a1 == (if n1 < 0 { -n1 } else { n1 }),
            a2 == (if n2 < 0 { -n2 } else { n2 }),
    ;
    // d1 divides a1 * d2 and is coprime to a1, so it divides d2; and back.
    assert(divides(d1, a1 * d2)) by {
        assert(a1 * d2 == (a2 as int) * d1);
    }
    lemma_coprime_divides_product(d1 as nat, a1, d2);
    assert(divides(d2, a2 * d1)) by {
        assert(a2 * d1 == (a1 as int) * d2);
    }
    lemma_coprime_divides_product(d2 as nat, a2, d1);
    lemma_divides_antisymmetric(d1, d2);
    assert(n1 == n2) by (nonlinear_arith)
        requires
            n1 * d2 == n2 * d1,
            d1 == d2,
            d1 > 0,
    ;
}

} // verus!
