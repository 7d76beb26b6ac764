//! Exact rational numbers in lowest terms.
use vstd::prelude::*;
use vstd::arithmetic::div_mod::lemma_fundamental_div_mod;
use crate::reals::{real_rem, wrap, wrap_centered};
use crate::divisibility::{
    abs_spec, gcd_spec, is_reduced, lemma_gcd_divides, lemma_quotients_coprime,
    lemma_reduced_unique,
};

verus! {

/// The real number `n / d`.
pub open spec fn rat(n: int, d: int) -> real {
    (n as real) / (d as real)
}

/// Two fractions with positive denominators have the same value exactly when
/// their cross products agree.
pub proof fn lemma_rat_eq(n1: int, d1: int, n2: int, d2: int)
    requires
        d1 > 0,
        d2 > 0,
    ensures
        rat(n1, d1) == rat(n2, d2) <==> n1 * d2 == n2 * d1,
{
    assert(rat(n1, d1) == rat(n2, d2) <==> n1 * d2 == n2 * d1) by (nonlinear_arith)
        requires
            d1 > 0,
            d2 > 0,
    ;
}

/// A rational number, stored as a numerator and a positive denominator without
/// a common factor.
#[derive(Debug, Clone, Copy, Hash, PartialEq, Eq, Structural)]
pub struct Frac {
    num: i32,
    den: i32,
}

impl View for Frac {
    type V = real;

    /// The value of the fraction.
    open spec fn view(&self) -> real {
        rat(self.numer() as int, self.denom() as int)
    }
}

impl Frac {
    /// The stored numerator.
    pub closed spec fn numer(self) -> i32 {
        self.num
    }

    /// The stored denominator.
    pub closed spec fn denom(self) -> i32 {
        self.den
    }

    /// The fraction is in lowest terms and its denominator is positive. Every
    /// value that executable code holds satisfies this.
    pub open spec fn wf(self) -> bool {
        is_reduced(self.numer() as int, self.denom() as int)
    }

    #[verifier::type_invariant]
    pub(crate) open spec fn inv(self) -> bool {
        self.wf()
    }

    /// Some fraction has the value `q`.
    pub open spec fn representable(q: real) -> bool {
        exists|f: Frac| #[trigger] f.wf() && f@ == q
    }

    /// The fraction whose value is `q`, where there is one.
    pub open spec fn from_real(q: real) -> Frac {
        choose|f: Frac| #[trigger] f.wf() && f@ == q
    }

    /// The fraction whose value is `q`, or `None` where no fraction has it.
    pub open spec fn checked(q: real) -> Option<Frac> {
        if Frac::representable(q) {
            Some(Frac::from_real(q))
        } else {
            None
        }
    }

    /// A fraction is determined by the pair it stores.
    pub proof fn lemma_parts(a: Frac, b: Frac)
        requires
            a.numer() == b.numer(),
            a.denom() == b.denom(),
        ensures
            a == b,
    {
    }

    /// A fraction is determined by its value.
    pub proof fn lemma_view_injective(a: Frac, b: Frac)
        requires
            a.wf(),
            b.wf(),
            a@ == b@,
        ensures
            a == b,
    {
        lemma_rat_eq(a.num as int, a.den as int, b.num as int, b.den as int);
        lemma_reduced_unique(a.num as int, a.den as int, b.num as int, b.den as int);
        Frac::lemma_parts(a, b);
    }

    /// A well-formed fraction is the checked fraction of its own value.
    pub proof fn lemma_checked_some(f: Frac, q: real)
        requires
            f.wf(),
            f@ == q,
        ensures
            Frac::checked(q) == Some(f),
    {
        let g = Frac::from_real(q);
        Frac::lemma_view_injective(f, g);
    }

    /// A value whose lowest terms do not fit the stored integers has no
    /// fraction.
    pub proof fn lemma_checked_none(n: int, d: int, q: real)
        requires
            is_reduced(n, d),
            rat(n, d) == q,
            !(i32::MIN <= n <= i32::MAX && d <= i32::MAX),
        ensures
            Frac::checked(q) is None,
    {
        if Frac::representable(q) {
            let f = Frac::from_real(q);
            lemma_rat_eq(f.num as int, f.den as int, n, d);
            lemma_reduced_unique(f.num as int, f.den as int, n, d);
        }
    }
}

/// The greatest common divisor of two unsigned numbers.
pub fn gcd_u64(a: u64, b: u64) -> (g: u64)
    ensures
        g == gcd_spec(a as nat, b as nat),
{
    let mut x: u64 = a;
    let mut y: u64 = b;
    while y != 0
        invariant
            gcd_spec(x as nat, y as nat) == gcd_spec(a as nat, b as nat),
        decreases y,
    {
        let t: u64 = y;
        y = x % y;
        x = t;
    }
    x
}

/// The magnitude of a 32-bit integer.
fn magnitude(a: i32) -> (m: u64)
    ensures
        m == abs_spec(a as int),
        m <= 0x8000_0000,
{
    if a < 0 {
        (-(a as i64)) as u64
    } else {
        a as u64
    }
}

/// The greatest common divisor of the magnitudes of two integers;
/// `gcd(0, 0)` is `0`.
pub fn gcd(a: i32, b: i32) -> (g: u32)
    ensures
        g == gcd_spec(abs_spec(a as int), abs_spec(b as int)),
{
    let x: u64 = magnitude(a);
    let y: u64 = magnitude(b);
    let g: u64 = gcd_u64(x, y);
    proof {
        lemma_gcd_bounded(x as nat, y as nat);
    }
    g as u32
}

/// The gcd is no larger than the larger argument.
pub proof fn lemma_gcd_bounded(a: nat, b: nat)
    ensures
        gcd_spec(a, b) <= a || gcd_spec(a, b) <= b,
    decreases b,
{
    if b != 0 {
        lemma_gcd_bounded(b, a % b);
        assert(a % b < b) by (nonlinear_arith)
            requires
                b > 0,
        ;
    }
}

/// The floor of a fraction with a positive denominator is the Euclidean
/// quotient.
pub proof fn lemma_floor_rat(n: int, d: int)
    requires
        d > 0,
    ensures
        rat(n, d).floor() == n / d,
{
    let q = n / d;
    let r = n % d;
    lemma_fundamental_div_mod(n, d);
    assert(0 <= r < d) by (nonlinear_arith)
        requires
            d > 0,
            r == n % d,
    ;
    assert((q as real) <= rat(n, d) < ((q + 1) as real)) by (nonlinear_arith)
        requires
            d > 0,
            n == d * q + r,
            0 <= r < d,
    ;
}

/// Products of stored numerators and denominators stay well inside 64 bits.
proof fn lemma_product_bound(x: int, y: int)
    requires
        -0x8000_0000 <= x <= 0x8000_0000,
        -0x8000_0000 <= y <= 0x7fff_ffff,
    ensures
        -0x4000_0000_0000_0000 <= x * y <= 0x4000_0000_0000_0000,
        0 < y ==> -0x3fff_ffff_8000_0000 <= x * y <= 0x3fff_ffff_8000_0000,
{
    assert(-0x4000_0000_0000_0000 <= x * y <= 0x4000_0000_0000_0000) by (nonlinear_arith)
        requires
            -0x8000_0000 <= x <= 0x8000_0000,
            -0x8000_0000 <= y <= 0x7fff_ffff,
    ;
    if 0 < y {
        assert(-0x3fff_ffff_8000_0000 <= x * y <= 0x3fff_ffff_8000_0000) by (nonlinear_arith)
            requires
                -0x8000_0000 <= x <= 0x8000_0000,
                0 < y <= 0x7fff_ffff,
        ;
    }
}

/// The fraction of value `n / d`, if its lowest terms can be stored.
fn from_wide(n: i64, d: i64) -> (r: Option<Frac>)
    requires
        d != 0,
        n > i64::MIN,
        d > i64::MIN,
    ensures
        r == Frac::checked(rat(n as int, d as int)),
{
    let negative: bool = (n < 0) != (d < 0);
    let un: u64 = if n < 0 {
        (-n) as u64
    } else {
        n as u64
    };
    let ud: u64 = if d < 0 {
        (-d) as u64
    } else {
        d as u64
    };
    let g: u64 = gcd_u64(un, ud);
    proof {
        lemma_quotients_coprime(un as nat, ud as nat);
        lemma_fundamental_div_mod(un as int, g as int);
        lemma_fundamental_div_mod(ud as int, g as int);
    }
    let rn: u64 = un / g;
    let rd: u64 = ud / g;
    let ghost sn: int = if negative {
        -(rn as int)
    } else {
        rn as int
    };
    proof {
        assert(rd > 0) by (nonlinear_arith)
            requires
                ud == g * rd,
                ud > 0,
                g > 0,
        ;
        assert(abs_spec(sn) == rn);
        assert(is_reduced(sn, rd as int));
        assert(n * (rd as int) == sn * (d as int)) by (nonlinear_arith)
            requires
                un == g * rn,
                ud == g * rd,
                g > 0,
                n == (if n < 0 { -(un as int) } else { un as int }),
                d == (if d < 0 { -(ud as int) } else { ud as int }),
                sn == (if (n < 0) != (d < 0) { -(rn as int) } else { rn as int }),
        ;
        assert(rat(n as int, d as int) == rat(sn, rd as int)) by (nonlinear_arith)
            requires
                n * (rd as int) == sn * (d as int),
                d != 0,
                rd > 0,
        ;
    }
    if rd > 0x7fff_ffff {
        proof {
            Frac::lemma_checked_none(sn, rd as int, rat(n as int, d as int));
        }
        return None;
    }
    if negative {
        if rn > 0x8000_0000 {
            proof {
                Frac::lemma_checked_none(sn, rd as int, rat(n as int, d as int));
            }
            None
        } else {
            let f = Frac { num: (-(rn as i64)) as i32, den: rd as i32 };
            proof {
                Frac::lemma_checked_some(f, rat(n as int, d as int));
            }
            Some(f)
        }
    } else {
        if rn > 0x7fff_ffff {
            proof {
                Frac::lemma_checked_none(sn, rd as int, rat(n as int, d as int));
            }
            None
        } else {
            let f = Frac { num: rn as i32, den: rd as i32 };
            proof {
                Frac::lemma_checked_some(f, rat(n as int, d as int));
            }
            Some(f)
        }
    }
}

impl Frac {
    /// The whole number `val` as a fraction.
    pub closed spec fn spec_from_int(val: i32) -> Frac {
        Frac { num: val, den: 1 }
    }

    /// The fraction of a whole number is well formed and has its value.
    pub proof fn lemma_from_int(val: i32)
        ensures
            Frac::spec_from_int(val).wf(),
            Frac::spec_from_int(val)@ == val as real,
            Frac::spec_from_int(val).numer() == val,
            Frac::spec_from_int(val).denom() == 1,
    {
        assert(gcd_spec(abs_spec(val as int), 1) == 1) by {
            reveal_with_fuel(gcd_spec, 3);
        }
        let f = Frac::spec_from_int(val);
        assert(f@ == val as real) by (nonlinear_arith)
            requires
                f@ == (val as int as real) / (1int as real),
        ;
    }

    /// The number zero.
    pub fn zero() -> (r: Frac)
        ensures
            r == Frac::spec_from_int(0),
            r@ == 0real,
            r.wf(),
    {
        assert(gcd_spec(0, 1) == 1) by {
            reveal_with_fuel(gcd_spec, 3);
        }
        let f = Frac { num: 0, den: 1 };
        assert(f@ == 0real) by (nonlinear_arith)
            requires
                f@ == (0int as real) / (1int as real),
        ;
        f
    }

    /// The number one.
    pub fn one() -> (r: Frac)
        ensures
            r == Frac::spec_from_int(1),
            r@ == 1real,
            r.wf(),
    {
        assert(gcd_spec(1, 1) == 1) by {
            reveal_with_fuel(gcd_spec, 3);
        }
        let f = Frac { num: 1, den: 1 };
        assert(f@ == 1real) by (nonlinear_arith)
            requires
                f@ == (1int as real) / (1int as real),
        ;
        f
    }

    /// The whole number `val`.
    #[verifier::when_used_as_spec(spec_from_int)]
    pub fn from_int(val: i32) -> (r: Frac)
        ensures
            r == Frac::spec_from_int(val),
            r@ == val as real,
            r.wf(),
    {
        proof {
            Frac::lemma_from_int(val);
        }
        Frac { num: val, den: 1 }
    }

    /// What [`Frac::checked_new`] answers.
    pub open spec fn spec_checked_new(numerator: i32, denominator: i32) -> Option<Frac> {
        if denominator == 0 {
            None
        } else {
            Frac::checked(rat(numerator as int, denominator as int))
        }
    }

    /// The fraction `numerator / denominator` in lowest terms; `None` when the
    /// denominator is zero or the lowest terms cannot be stored.
    #[verifier::when_used_as_spec(spec_checked_new)]
    pub fn checked_new(numerator: i32, denominator: i32) -> (r: Option<Frac>)
        ensures
            r == Frac::spec_checked_new(numerator, denominator),
    {
        if denominator == 0 {
            None
        } else {
            from_wide(numerator as i64, denominator as i64)
        }
    }

    /// A fraction of two integers other than the least one can be stored, if
    /// the denominator is not zero.
    pub proof fn lemma_new_fits(numerator: i32, denominator: i32)
        requires
            denominator != 0,
            numerator > i32::MIN,
            denominator > i32::MIN,
        ensures
            Frac::spec_checked_new(numerator, denominator) is Some,
    {
        let n = numerator as int;
        let d = denominator as int;
        let a = abs_spec(n);
        let b = abs_spec(d);
        let g = gcd_spec(a, b);
        lemma_quotients_coprime(a, b);
        lemma_fundamental_div_mod(a as int, g as int);
        lemma_fundamental_div_mod(b as int, g as int);
        let ra = a / g;
        let rb = b / g;
        assert(0 <= ra <= a && 0 < rb <= b) by (nonlinear_arith)
            requires
                a == g * ra,
                b == g * rb,
                g > 0,
                b > 0,
                a >= 0,
        ;
        let sn: int = if (n < 0) != (d < 0) {
            -(ra as int)
        } else {
            ra as int
        };
        assert(n * (rb as int) == sn * d) by (nonlinear_arith)
            requires
                a == g * ra,
                b == g * rb,
                g > 0,
                a == (if n < 0 { -n } else { n }),
                b == (if d < 0 { -d } else { d }),
                sn == (if (n < 0) != (d < 0) { -(ra as int) } else { ra as int }),
        ;
        assert(rat(n, d) == rat(sn, rb as int)) by (nonlinear_arith)
            requires
                n * (rb as int) == sn * d,
                d != 0,
                rb > 0,
        ;
        let f = Frac { num: sn as i32, den: rb as i32 };
        assert(abs_spec(sn) == ra);
        assert(f.wf());
        Frac::lemma_checked_some(f, rat(n, d));
    }

    /// The fraction `numerator / denominator` in lowest terms.
    pub fn new(numerator: i32, denominator: i32) -> (r: Frac)
        requires
            Frac::spec_checked_new(numerator, denominator) is Some,
        ensures
            Some(r) == Frac::spec_checked_new(numerator, denominator),
            r@ == rat(numerator as int, denominator as int),
            r.wf(),
    {
        let r = from_wide(numerator as i64, denominator as i64);
        r.unwrap()
    }

    /// The numerator of the lowest terms.
    pub fn get_numerator(&self) -> (n: i32)
        ensures
            n == self.numer(),
            self.wf(),
    {
        proof {
            use_type_invariant(self);
        }
        self.num
    }

    /// The denominator of the lowest terms, which is positive.
    pub fn get_denominator(&self) -> (d: i32)
        ensures
            d == self.denom(),
            d > 0,
            self.wf(),
    {
        proof {
            use_type_invariant(self);
        }
        self.den
    }

    /// What [`Frac::checked_add`] answers: the sum, where it can be stored.
    pub open spec fn spec_checked_add(self, rhs: Frac) -> Option<Frac> {
        Frac::checked(self@ + rhs@)
    }

    /// The sum of two fractions; `None` exactly when it cannot be stored.
    #[verifier::when_used_as_spec(spec_checked_add)]
    pub fn checked_add(self, rhs: Frac) -> (r: Option<Frac>)
        ensures
            r == self.spec_checked_add(rhs),
    {
        proof {
            use_type_invariant(self);
            use_type_invariant(rhs);
            lemma_product_bound(self.num as int, rhs.den as int);
            lemma_product_bound(rhs.num as int, self.den as int);
            lemma_product_bound(self.den as int, rhs.den as int);
        }
        let n: i64 = (self.num as i64) * (rhs.den as i64) + (rhs.num as i64) * (self.den as i64);
        let d: i64 = (self.den as i64) * (rhs.den as i64);
        proof {
            let (n1, d1, n2, d2) = (self.num as int, self.den as int, rhs.num as int, rhs.den as int);
            assert(d1 * d2 > 0) by (nonlinear_arith)
                requires
                    d1 > 0,
                    d2 > 0,
            ;
            assert(rat(n1, d1) + rat(n2, d2) == rat(n1 * d2 + n2 * d1, d1 * d2)) by (nonlinear_arith)
                requires
                    d1 > 0,
                    d2 > 0,
            ;
        }
        from_wide(n, d)
    }

    /// What [`Frac::checked_sub`] answers: the difference, where it can be
    /// stored.
    pub open spec fn spec_checked_sub(self, rhs: Frac) -> Option<Frac> {
        Frac::checked(self@ - rhs@)
    }

    /// The difference of two fractions; `None` exactly when it cannot be stored.
    #[verifier::when_used_as_spec(spec_checked_sub)]
    pub fn checked_sub(self, rhs: Frac) -> (r: Option<Frac>)
        ensures
            r == self.spec_checked_sub(rhs),
    {
        proof {
            use_type_invariant(self);
            use_type_invariant(rhs);
            lemma_product_bound(self.num as int, rhs.den as int);
            lemma_product_bound(rhs.num as int, self.den as int);
            lemma_product_bound(self.den as int, rhs.den as int);
        }
        let n: i64 = (self.num as i64) * (rhs.den as i64) - (rhs.num as i64) * (self.den as i64);
        let d: i64 = (self.den as i64) * (rhs.den as i64);
        proof {
            let (n1, d1, n2, d2) = (self.num as int, self.den as int, rhs.num as int, rhs.den as int);
            assert(d1 * d2 > 0) by (nonlinear_arith)
                requires
                    d1 > 0,
                    d2 > 0,
            ;
            assert(rat(n1, d1) - rat(n2, d2) == rat(n1 * d2 - n2 * d1, d1 * d2)) by (nonlinear_arith)
                requires
                    d1 > 0,
                    d2 > 0,
            ;
        }
        from_wide(n, d)
    }

    /// What [`Frac::checked_mul`] answers: the product, where it can be stored.
    pub open spec fn spec_checked_mul(self, rhs: Frac) -> Option<Frac> {
        Frac::checked(self@ * rhs@)
    }

    /// The product of two fractions; `None` exactly when it cannot be stored.
    #[verifier::when_used_as_spec(spec_checked_mul)]
    pub fn checked_mul(self, rhs: Frac) -> (r: Option<Frac>)
        ensures
            r == self.spec_checked_mul(rhs),
    {
        proof {
            use_type_invariant(self);
            use_type_invariant(rhs);
            lemma_product_bound(self.num as int, rhs.num as int);
            lemma_product_bound(self.den as int, rhs.den as int);
        }
        let n: i64 = (self.num as i64) * (rhs.num as i64);
        let d: i64 = (self.den as i64) * (rhs.den as i64);
        proof {
            let (n1, d1, n2, d2) = (self.num as int, self.den as int, rhs.num as int, rhs.den as int);
            assert(d1 * d2 > 0) by (nonlinear_arith)
                requires
                    d1 > 0,
                    d2 > 0,
            ;
            assert(rat(n1, d1) * rat(n2, d2) == rat(n1 * n2, d1 * d2)) by (nonlinear_arith)
                requires
                    d1 > 0,
                    d2 > 0,
            ;
        }
        from_wide(n, d)
    }

    /// What [`Frac::checked_div`] answers: the quotient, where the divisor is
    /// not zero and the quotient can be stored.
    pub open spec fn spec_checked_div(self, rhs: Frac) -> Option<Frac> {
        if rhs@ == 0real {
            None
        } else {
            Frac::checked(self@ / rhs@)
        }
    }

    /// The quotient of two fractions; `None` exactly when the divisor is zero
    /// or the quotient cannot be stored.
    #[verifier::when_used_as_spec(spec_checked_div)]
    pub fn checked_div(self, rhs: Frac) -> (r: Option<Frac>)
        ensures
            r == self.spec_checked_div(rhs),
    {
        proof {
            use_type_invariant(self);
            use_type_invariant(rhs);
            lemma_product_bound(self.num as int, rhs.den as int);
            lemma_product_bound(self.den as int, rhs.num as int);
            rhs.lemma_is_zero();
        }
        if rhs.num == 0 {
            return None;
        }
        let n: i64 = (self.num as i64) * (rhs.den as i64);
        let d: i64 = (self.den as i64) * (rhs.num as i64);
        proof {
            let (n1, d1, n2, d2) = (self.num as int, self.den as int, rhs.num as int, rhs.den as int);
            assert(d1 * n2 != 0) by (nonlinear_arith)
                requires
                    d1 > 0,
                    n2 != 0,
            ;
            assert(d1 * n2 == n2 * d1) by (nonlinear_arith);
            assert(rat(n1, d1) / rat(n2, d2) == rat(n1 * d2, d1 * n2)) by (nonlinear_arith)
                requires
                    d1 > 0,
                    d2 > 0,
                    n2 != 0,
            ;
        }
        from_wide(n, d)
    }

    /// A fraction is zero exactly when its numerator is.
    pub proof fn lemma_is_zero(self)
        requires
            self.wf(),
        ensures
            self@ == 0real <==> self.numer() == 0,
            self@ > 0real <==> self.numer() > 0,
            self@ < 0real <==> self.numer() < 0,
    {
        let (n, d) = (self.num as int, self.den as int);
        assert((rat(n, d) == 0real <==> n == 0) && (rat(n, d) > 0real <==> n > 0) && (rat(n, d)
            < 0real <==> n < 0)) by (nonlinear_arith)
            requires
                d > 0,
        ;
    }

    /// What [`Frac::checked_neg`] answers: the negation, where it can be
    /// stored.
    pub open spec fn spec_checked_neg(self) -> Option<Frac> {
        Frac::checked(-self@)
    }

    /// The negation of a fraction; `None` exactly when it cannot be stored.
    #[verifier::when_used_as_spec(spec_checked_neg)]
    pub fn checked_neg(self) -> (r: Option<Frac>)
        ensures
            r == self.spec_checked_neg(),
    {
        proof {
            use_type_invariant(self);
            let (n, d) = (self.num as int, self.den as int);
            assert(-rat(n, d) == rat(-n, d)) by (nonlinear_arith)
                requires
                    d > 0,
            ;
        }
        from_wide(-(self.num as i64), self.den as i64)
    }

    /// What [`Frac::abs`] answers: the absolute value, where it can be
    /// stored.
    pub open spec fn spec_abs(self) -> Option<Frac> {
        Frac::checked(if self@ < 0real { -self@ } else { self@ })
    }

    /// The absolute value of a fraction; `None` exactly when it cannot be
    /// stored.
    #[verifier::when_used_as_spec(spec_abs)]
    pub fn abs(self) -> (r: Option<Frac>)
        ensures
            r == self.spec_abs(),
    {
        proof {
            use_type_invariant(self);
            self.lemma_is_zero();
        }
        if self.num < 0 {
            self.checked_neg()
        } else {
            proof {
                Frac::lemma_checked_some(self, self@);
            }
            Some(self)
        }
    }

    /// What [`Frac::checked_rem`] answers: `self - floor(self / rhs) * rhs`,
    /// where `rhs` is not zero and the remainder can be stored. The remainder
    /// has the sign of `rhs`.
    pub open spec fn spec_checked_rem(self, rhs: Frac) -> Option<Frac> {
        if rhs@ == 0real {
            None
        } else {
            Frac::checked(real_rem(self@, rhs@))
        }
    }

    /// The remainder of `self` modulo `rhs`; `None` exactly when `rhs` is zero
    /// or the remainder cannot be stored.
    #[verifier::when_used_as_spec(spec_checked_rem)]
    pub fn checked_rem(self, rhs: Frac) -> (r: Option<Frac>)
        ensures
            r == self.spec_checked_rem(rhs),
    {
        proof {
            use_type_invariant(self);
            use_type_invariant(rhs);
            lemma_product_bound(self.num as int, rhs.den as int);
            lemma_product_bound(rhs.num as int, self.den as int);
            lemma_product_bound(self.den as int, rhs.den as int);
            rhs.lemma_is_zero();
        }
        if rhs.num == 0 {
            return None;
        }
        let x: i64 = (self.num as i64) * (rhs.den as i64);
        let y: i64 = (rhs.num as i64) * (self.den as i64);
        let d: i64 = (self.den as i64) * (rhs.den as i64);
        proof {
            let (n2, d1, d2) = (rhs.num as int, self.den as int, rhs.den as int);
            assert(n2 * d1 != 0 && d1 * d2 > 0) by (nonlinear_arith)
                requires
                    d1 > 0,
                    d2 > 0,
                    n2 != 0,
            ;
        }
        let xs: i64 = if y > 0 {
            x
        } else {
            -x
        };
        let yp: i64 = if y > 0 {
            y
        } else {
            -y
        };
        let q: i64 = floor_div(xs, yp);
        proof {
            lemma_fundamental_div_mod(xs as int, yp as int);
            assert(0 <= (xs as int) % (yp as int) < yp) by (nonlinear_arith)
                requires
                    yp > 0,
            ;
            assert((q as int) * (yp as int) == (yp as int) * (q as int)) by (nonlinear_arith);
        }
        let e: i64 = xs - q * yp;
        let m: i64 = if y > 0 {
            e
        } else {
            -e
        };
        proof {
            let (n1, d1, n2, d2) = (self.num as int, self.den as int, rhs.num as int, rhs.den as int);
            lemma_floor_rat(xs as int, yp as int);
            assert(rat(n1, d1) / rat(n2, d2) == rat(xs as int, yp as int)) by (nonlinear_arith)
                requires
                    d1 > 0,
                    d2 > 0,
                    n2 != 0,
                    yp > 0,
                    (y > 0 && xs == n1 * d2 && yp == n2 * d1) || (y <= 0 && xs == -(n1 * d2) && yp
                        == -(n2 * d1)),
            ;
            assert(m == n1 * d2 - q * (n2 * d1)) by (nonlinear_arith)
                requires
                    e == xs - q * yp,
                    (y > 0 && xs == n1 * d2 && yp == n2 * d1 && m == e) || (y <= 0 && xs == -(n1
                        * d2) && yp == -(n2 * d1) && m == -e),
            ;
            assert((q as real) * rat(n2, d2) == rat(q * n2, d2)) by (nonlinear_arith)
                requires
                    d2 > 0,
            ;
            assert(rat(n1, d1) - rat(q * n2, d2) == rat(n1 * d2 - (q * n2) * d1, d1 * d2))
                by (nonlinear_arith)
                requires
                    d1 > 0,
                    d2 > 0,
            ;
            assert((q * n2) * d1 == q * (n2 * d1)) by (nonlinear_arith);
        }
        from_wide(m, d)
    }

    /// What [`Frac::dot3`] answers: `a1 * b1 + a2 * b2 + a3 * b3`, where the
    /// three products, the sum of the first two and the whole sum can all be
    /// stored.
    pub open spec fn spec_dot3(a1: Frac, b1: Frac, a2: Frac, b2: Frac, a3: Frac, b3: Frac) -> Option<
        Frac,
    > {
        match (a1.checked_mul(b1), a2.checked_mul(b2), a3.checked_mul(b3)) {
            (Some(u), Some(v), Some(w)) => match u.checked_add(v) {
                Some(s) => s.checked_add(w),
                None => None,
            },
            _ => None,
        }
    }

    /// The sum of three products, `None` when a product or a partial sum
    /// cannot be stored.
    #[verifier::when_used_as_spec(spec_dot3)]
    pub fn dot3(a1: Frac, b1: Frac, a2: Frac, b2: Frac, a3: Frac, b3: Frac) -> (r: Option<Frac>)
        ensures
            r == Frac::spec_dot3(a1, b1, a2, b2, a3, b3),
            r matches Some(d) ==> d@ == a1@ * b1@ + a2@ * b2@ + a3@ * b3@,
    {
        let u = a1.checked_mul(b1);
        let v = a2.checked_mul(b2);
        let w = a3.checked_mul(b3);
        match (u, v, w) {
            (Some(u), Some(v), Some(w)) => match u.checked_add(v) {
                Some(s) => s.checked_add(w),
                None => None,
            },
            _ => None,
        }
    }

    /// What [`Frac::minor`] answers: `p * q - r * s`, where both products and
    /// their difference can be stored.
    pub open spec fn spec_minor(p: Frac, q: Frac, r: Frac, s: Frac) -> Option<Frac> {
        match (p.checked_mul(q), r.checked_mul(s)) {
            (Some(u), Some(v)) => u.checked_sub(v),
            _ => None,
        }
    }

    /// The 2x2 determinant `p * q - r * s`, `None` when a product or the
    /// difference cannot be stored.
    #[verifier::when_used_as_spec(spec_minor)]
    pub fn minor(p: Frac, q: Frac, r: Frac, s: Frac) -> (m: Option<Frac>)
        ensures
            m == Frac::spec_minor(p, q, r, s),
            m matches Some(d) ==> d@ == p@ * q@ - r@ * s@,
    {
        match (p.checked_mul(q), r.checked_mul(s)) {
            (Some(u), Some(v)) => u.checked_sub(v),
            _ => None,
        }
    }

    /// The value of `self` is below `n / d`.
    pub fn less_than_ratio(&self, n: i32, d: i32) -> (r: bool)
        requires
            d > 0,
        ensures
            r <==> self@ < rat(n as int, d as int),
    {
        proof {
            use_type_invariant(self);
            lemma_product_bound(self.num as int, d as int);
            lemma_product_bound(n as int, self.den as int);
            let (n1, d1, n2, d2) = (self.num as int, self.den as int, n as int, d as int);
            assert(rat(n1, d1) < rat(n2, d2) <==> n1 * d2 < n2 * d1) by (nonlinear_arith)
                requires
                    d1 > 0,
                    d2 > 0,
            ;
        }
        (self.num as i64) * (d as i64) < (n as i64) * (self.den as i64)
    }

    /// The value of `self` is above `n / d`.
    pub fn exceeds_ratio(&self, n: i32, d: i32) -> (r: bool)
        requires
            d > 0,
        ensures
            r <==> self@ > rat(n as int, d as int),
    {
        proof {
            use_type_invariant(self);
            lemma_product_bound(self.num as int, d as int);
            lemma_product_bound(n as int, self.den as int);
            let (n1, d1, n2, d2) = (self.num as int, self.den as int, n as int, d as int);
            assert(rat(n1, d1) > rat(n2, d2) <==> n1 * d2 > n2 * d1) by (nonlinear_arith)
                requires
                    d1 > 0,
                    d2 > 0,
            ;
        }
        (self.num as i64) * (d as i64) > (n as i64) * (self.den as i64)
    }

    /// What [`Frac::checked_wrap`] answers: the fraction reduced into
    /// `[0, bound)`, where the bound is positive and the result can be stored.
    pub open spec fn spec_checked_wrap(self, bound: i32) -> Option<Frac> {
        if bound <= 0 {
            None
        } else {
            Frac::checked(wrap(self@, bound as int))
        }
    }

    /// The fraction reduced into `[0, bound)` by a multiple of `bound`; `None`
    /// exactly when the bound is not positive or the result cannot be stored.
    #[verifier::when_used_as_spec(spec_checked_wrap)]
    pub fn checked_wrap(self, bound: i32) -> (r: Option<Frac>)
        ensures
            r == self.spec_checked_wrap(bound),
    {
        if bound <= 0 {
            return None;
        }
        let b = Frac::from_int(bound);
        proof {
            b.lemma_is_zero();
        }
        self.checked_rem(b)
    }

    /// What [`Frac::checked_wrap_centered`] answers: the fraction reduced into
    /// `(-bound/2, bound/2]`, where the bound is positive and the result can
    /// be stored.
    pub open spec fn spec_checked_wrap_centered(self, bound: i32) -> Option<Frac> {
        if bound <= 0 {
            None
        } else {
            Frac::checked(wrap_centered(self@, bound as int))
        }
    }

    /// The fraction reduced into `(-bound/2, bound/2]` by a multiple of
    /// `bound`; `None` exactly when the bound is not positive or the result
    /// cannot be stored.
    #[verifier::when_used_as_spec(spec_checked_wrap_centered)]
    pub fn checked_wrap_centered(self, bound: i32) -> (r: Option<Frac>)
        ensures
            r == self.spec_checked_wrap_centered(bound),
    {
        if bound <= 0 {
            return None;
        }
        proof {
            use_type_invariant(self);
            lemma_product_bound(bound as int, self.den as int);
            assert((bound as int) * (self.den as int) > 0) by (nonlinear_arith)
                requires
                    bound > 0,
                    self.den > 0,
            ;
            lemma_floor_rat(self.num as int, (bound as int) * (self.den as int));
        }
        // self = n / d; modulo b it is (n mod (b * d)) / d.
        let n: i64 = self.num as i64;
        let d: i64 = self.den as i64;
        let y: i64 = (bound as i64) * d;
        let q: i64 = floor_div(n, y);
        proof {
            lemma_fundamental_div_mod(n as int, y as int);
            assert(0 <= (n as int) % (y as int) < y) by (nonlinear_arith)
                requires
                    y > 0,
            ;
            assert((q as int) * (y as int) == (y as int) * (q as int)) by (nonlinear_arith);
        }
        let e: i64 = n - q * y;
        let m: i64 = if 2 * e > y {
            e - y
        } else {
            e
        };
        proof {
            let (b, ni, di) = (bound as int, self.num as int, self.den as int);
            let x = self@;
            assert(x / (b as real) == rat(ni, b * di)) by (nonlinear_arith)
                requires
                    x == rat(ni, di),
                    b > 0,
                    di > 0,
            ;
            assert(q == (x / (b as real)).floor());
            let w = wrap(x, b);
            assert(w == x - (q as real) * (b as real));
            assert(w == rat(e as int, di)) by (nonlinear_arith)
                requires
                    w == x - (q as real) * (b as real),
                    x == rat(ni, di),
                    e == ni - q * (b * di),
                    di > 0,
            ;
            assert((2real * w > b as real) <==> (2 * e > b * di)) by (nonlinear_arith)
                requires
                    w == rat(e as int, di),
                    di > 0,
            ;
            assert(w - (b as real) == rat(e - b * di, di)) by (nonlinear_arith)
                requires
                    w == rat(e as int, di),
                    di > 0,
            ;
        }
        from_wide(m, d)
    }

    /// The value of `self` is below that of `other`.
    pub fn less_than(&self, other: &Frac) -> (r: bool)
        ensures
            r <==> self@ < other@,
    {
        proof {
            use_type_invariant(self);
            use_type_invariant(other);
            lemma_product_bound(self.num as int, other.den as int);
            lemma_product_bound(other.num as int, self.den as int);
            let (n1, d1, n2, d2) = (self.num as int, self.den as int, other.num as int, other.den as int);
            assert(rat(n1, d1) < rat(n2, d2) <==> n1 * d2 < n2 * d1) by (nonlinear_arith)
                requires
                    d1 > 0,
                    d2 > 0,
            ;
        }
        (self.num as i64) * (other.den as i64) < (other.num as i64) * (self.den as i64)
    }

    /// The fraction is `+1` or `-1`.
    pub fn is_unit(&self) -> (r: bool)
        ensures
            r <==> (self@ == 1real || self@ == -1real),
    {
        proof {
            assert(rat(1, 1) == 1real && rat(-1, 1) == -1real) by (nonlinear_arith);
        }
        let one = !self.less_than_ratio(1, 1) && !self.exceeds_ratio(1, 1);
        let minus_one = !self.less_than_ratio(-1, 1) && !self.exceeds_ratio(-1, 1);
        one || minus_one
    }

    /// The fraction is zero.
    pub fn is_zero(&self) -> (r: bool)
        ensures
            r <==> self@ == 0real,
    {
        proof {
            use_type_invariant(self);
            self.lemma_is_zero();
        }
        self.num == 0
    }

    /// The largest whole number that is not above the fraction.
    pub fn floor(self) -> (r: Frac)
        ensures
            r@ == self@.floor() as real,
            r.wf(),
    {
        proof {
            use_type_invariant(self);
            lemma_floor_rat(self.num as int, self.den as int);
        }
        let n: i64 = self.num as i64;
        let d: i64 = self.den as i64;
        let q: i64 = floor_div(n, d);
        proof {
            lemma_floor_bounds(n as int, d as int);
        }
        Frac::from_int(q as i32)
    }

    /// The smallest whole number that is not below the fraction.
    pub fn ceil(self) -> (r: Frac)
        ensures
            r@ == -((-self@).floor()) as real,
            r.wf(),
    {
        proof {
            use_type_invariant(self);
            lemma_floor_rat(-(self.num as int), self.den as int);
            let (n, d) = (self.num as int, self.den as int);
            assert(-rat(n, d) == rat(-n, d)) by (nonlinear_arith)
                requires
                    d > 0,
            ;
        }
        let n: i64 = -(self.num as i64);
        let d: i64 = self.den as i64;
        let q: i64 = floor_div(n, d);
        proof {
            lemma_floor_bounds(n as int, d as int);
        }
        Frac::from_int((-q) as i32)
    }
}

/// The Euclidean quotient by a positive divisor stays between the dividend and
/// zero.
proof fn lemma_floor_bounds(n: int, d: int)
    requires
        d > 0,
    ensures
        n >= 0 ==> 0 <= n / d <= n,
        n < 0 ==> n <= n / d < 0,
{
    lemma_fundamental_div_mod(n, d);
    let q = n / d;
    let r = n % d;
    assert(0 <= r < d) by (nonlinear_arith)
        requires
            d > 0,
            r == n % d,
    ;
    assert((n >= 0 ==> 0 <= q <= n) && (n < 0 ==> n <= q < 0)) by (nonlinear_arith)
        requires
            d > 0,
            n == d * q + r,
            0 <= r < d,
    ;
}

/// The Euclidean quotient of `n` by a positive `d`.
fn floor_div(n: i64, d: i64) -> (q: i64)
    requires
        d > 0,
        n > i64::MIN,
    ensures
        q == (n as int) / (d as int),
{
    if n >= 0 {
        n / d
    } else {
        let m: i64 = -n;
        let e: i64 = (m - 1) / d;
        proof {
            // n = -(m); floor(n / d) = -ceil(m / d) = -((m - 1) / d + 1)
            lemma_fundamental_div_mod(m - 1, d as int);
            let r = (m - 1) % (d as int);
            assert(0 <= r < d) by (nonlinear_arith)
                requires
                    d > 0,
                    r == (m - 1) % (d as int),
            ;
            lemma_floor_bounds(m - 1, d as int);
            assert(n == (-(e as int) - 1) * d + (d - 1 - r)) by (nonlinear_arith)
                requires
                    m - 1 == d * e + r,
                    n == -m,
            ;
            vstd::arithmetic::div_mod::lemma_fundamental_div_mod_converse(
                n as int,
                d as int,
                -(e as int) - 1,
                d - 1 - r,
            );
        }
        -e - 1
    }
}

impl Frac {
    /// What `checked` answers is well formed and has the value asked for.
    pub proof fn lemma_checked_value(q: real)
        ensures
            Frac::checked(q) matches Some(f) ==> f.wf() && f@ == q,
    {
    }

    /// Adding a fraction and taking it away again gives back the first:
    /// `(a + b) - b == a`, whenever the sum can be stored.
    pub proof fn law_add_then_sub(a: Frac, b: Frac)
        requires
            a.wf(),
            b.wf(),
            a.checked_add(b) is Some,
        ensures
            a.checked_add(b).unwrap().checked_sub(b) == Some(a),
    {
        let c = a.checked_add(b).unwrap();
        Frac::lemma_checked_some(a, c@ - b@);
    }

    /// Multiplying by a fraction other than zero and dividing by it again gives
    /// back the first: `a * b / b == a`, whenever the product can be stored.
    pub proof fn law_mul_then_div(a: Frac, b: Frac)
        requires
            a.wf(),
            b.wf(),
            b@ != 0real,
            a.checked_mul(b) is Some,
        ensures
            a.checked_mul(b).unwrap().checked_div(b) == Some(a),
    {
        let c = a.checked_mul(b).unwrap();
        let (x, y) = (a@, b@);
        assert((x * y) / y == x) by (nonlinear_arith)
            requires
                y != 0real,
        ;
        Frac::lemma_checked_some(a, c@ / b@);
    }

    /// Fractions of equal value are equal, whatever pair they were made from.
    pub proof fn law_normal_form(n1: i32, d1: i32, n2: i32, d2: i32)
        requires
            d1 != 0,
            d2 != 0,
            rat(n1 as int, d1 as int) == rat(n2 as int, d2 as int),
        ensures
            Frac::checked_new(n1, d1) == Frac::checked_new(n2, d2),
    {
    }
}

} // verus!
