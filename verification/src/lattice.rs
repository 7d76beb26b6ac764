//! Whole numbers among the reals, and what reduction modulo the lattice
//! translations does to them.
use vstd::prelude::*;
use crate::reals::{
    is_integer, lemma_wrap, lemma_wrap_fixed, whole, wrap, wrap_quotient, lemma_wrap_centered, lemma_wrap_centered_fixed, wrap_centered,
    wrap_centered_quotient, Real3, RealAffine3, RealMat3,
};

verus! {

/// The real number of a whole number is whole.
pub proof fn lemma_integer(n: int)
    ensures
        is_integer(n as real),
{
    assert(n as real == whole(n));
}

/// Sums, differences, products and opposites of whole numbers are whole.
pub proof fn lemma_integer_ring(a: real, b: real)
    requires
        is_integer(a),
        is_integer(b),
    ensures
        is_integer(a + b),
        is_integer(a - b),
        is_integer(a * b),
        is_integer(-a),
{
    let m = choose|m: int| a == #[trigger] whole(m);
    let n = choose|n: int| b == #[trigger] whole(n);
    assert(a + b == whole(m + n));
    assert(a - b == whole(m - n));
    assert(-a == whole(-m));
    assert(a * b == (m * n) as real) by (nonlinear_arith)
        requires
            a == m as real,
            b == n as real,
    ;
    assert(a * b == whole(m * n));
}

/// A whole number strictly between `-1` and `1` is zero.
pub proof fn lemma_small_integer(a: real)
    requires
        is_integer(a),
        -1real < a < 1real,
    ensures
        a == 0real,
{
    let n = choose|n: int| a == #[trigger] whole(n);
    assert(n == 0);
}

/// Reduction modulo `1` moves a number by a whole number.
pub proof fn lemma_wrap_centered_shift(x: real)
    ensures
        is_integer(x - wrap_centered(x, 1)),
        -1real < 2real * wrap_centered(x, 1) <= 1real,
{
    lemma_wrap_centered(x, 1);
    let k = wrap_centered_quotient(x, 1);
    assert(x - wrap_centered(x, 1) == whole(k));
}

/// Two numbers have the same reduction modulo `1` exactly when they differ by
/// a whole number.
pub proof fn lemma_wrap_centered_congruent(x: real, y: real)
    ensures
        wrap_centered(x, 1) == wrap_centered(y, 1) <==> is_integer(x - y),
{
    lemma_wrap_centered_shift(x);
    lemma_wrap_centered_shift(y);
    let cx = wrap_centered(x, 1);
    let cy = wrap_centered(y, 1);
    if cx == cy {
        lemma_integer_ring(x - cx, y - cy);
        assert((x - cx) - (y - cy) == x - y);
    }
    if is_integer(x - y) {
        lemma_integer_ring(x - y, x - cx);
        lemma_integer_ring((x - y) - (x - cx), y - cy);
        assert(((x - y) - (x - cx)) + (y - cy) == cx - cy);
        lemma_small_integer(cx - cy);
    }
}

impl Real3 {
    /// Each coordinate lies in `(-1/2, 1/2]`.
    pub open spec fn is_centered(self) -> bool {
        &&& -1real < 2real * self.x <= 1real
        &&& -1real < 2real * self.y <= 1real
        &&& -1real < 2real * self.z <= 1real
    }

    /// Sums, differences and opposites of whole triples are whole.
    pub proof fn lemma_integral_ring(self, v: Real3)
        requires
            self.is_integral(),
            v.is_integral(),
        ensures
            self.add(v).is_integral(),
            self.sub(v).is_integral(),
            self.neg().is_integral(),
            is_integer(self.dot(v)),
    {
        lemma_integer_ring(self.x, v.x);
        lemma_integer_ring(self.y, v.y);
        lemma_integer_ring(self.z, v.z);
        lemma_integer_ring(self.x * v.x, self.y * v.y);
        lemma_integer_ring(self.x * v.x + self.y * v.y, self.z * v.z);
    }

    /// Two triples have the same reduction modulo the lattice exactly when
    /// they differ by a whole triple.
    pub proof fn lemma_wrap_centered_congruent(self, v: Real3)
        ensures
            self.wrap_centered(1, 1, 1) == v.wrap_centered(1, 1, 1) <==> self.sub(v).is_integral(),
    {
        lemma_wrap_centered_congruent(self.x, v.x);
        lemma_wrap_centered_congruent(self.y, v.y);
        lemma_wrap_centered_congruent(self.z, v.z);
    }

    /// A reduced triple is its own reduction, and the reduction is reduced.
    pub proof fn lemma_wrap_centered_fixed(self)
        ensures
            self.wrap_centered(1, 1, 1).is_centered(),
            self.is_centered() ==> self.wrap_centered(1, 1, 1) == self,
    {
        lemma_wrap_centered_shift(self.x);
        lemma_wrap_centered_shift(self.y);
        lemma_wrap_centered_shift(self.z);
        if self.is_centered() {
            lemma_wrap_centered_fixed(self.x, 1);
            lemma_wrap_centered_fixed(self.y, 1);
            lemma_wrap_centered_fixed(self.z, 1);
        }
    }

    /// Two reduced triples that differ by a whole triple are the same.
    pub proof fn lemma_centered_equal(self, v: Real3)
        requires
            self.is_centered(),
            v.is_centered(),
            self.sub(v).is_integral(),
        ensures
            self == v,
    {
        lemma_small_integer(self.x - v.x);
        lemma_small_integer(self.y - v.y);
        lemma_small_integer(self.z - v.z);
    }
}

impl RealMat3 {
    /// A whole matrix maps whole triples to whole triples.
    pub proof fn lemma_apply_integral(self, v: Real3)
        requires
            self.is_integral(),
            v.is_integral(),
        ensures
            self.apply(v).is_integral(),
    {
        self.row0().lemma_integral_ring(v);
        self.row1().lemma_integral_ring(v);
        self.row2().lemma_integral_ring(v);
    }

    /// The adjoint of a whole matrix is whole.
    pub proof fn lemma_adjoint_integral(self)
        requires
            self.is_integral(),
        ensures
            self.adjoint().is_integral(),
    {
        lemma_minor_integral(self.m11, self.m22, self.m12, self.m21);
        lemma_minor_integral(self.m12, self.m20, self.m10, self.m22);
        lemma_minor_integral(self.m10, self.m21, self.m11, self.m20);
        lemma_minor_integral(self.m21, self.m02, self.m22, self.m01);
        lemma_minor_integral(self.m00, self.m22, self.m02, self.m20);
        lemma_minor_integral(self.m01, self.m20, self.m00, self.m21);
        lemma_minor_integral(self.m01, self.m12, self.m02, self.m11);
        lemma_minor_integral(self.m02, self.m10, self.m00, self.m12);
        lemma_minor_integral(self.m00, self.m11, self.m01, self.m10);
    }

    /// The inverse of a whole matrix with determinant `+1` or `-1` is whole.
    pub proof fn lemma_inverse_integral(self)
        requires
            self.is_integral(),
            self.det() == 1real || self.det() == -1real,
        ensures
            self.inverse().is_integral(),
    {
        self.lemma_adjoint_integral();
        let a = self.adjoint();
        let k = 1real / self.det();
        assert(k == 1real || k == -1real) by (nonlinear_arith)
            requires
                self.det() == 1real || self.det() == -1real,
                k == 1real / self.det(),
        ;
        lemma_integer(1);
        lemma_integer(-1);
        lemma_integer_ring(a.m00, k);
        lemma_integer_ring(a.m01, k);
        lemma_integer_ring(a.m02, k);
        lemma_integer_ring(a.m10, k);
        lemma_integer_ring(a.m11, k);
        lemma_integer_ring(a.m12, k);
        lemma_integer_ring(a.m20, k);
        lemma_integer_ring(a.m21, k);
        lemma_integer_ring(a.m22, k);
    }
}

/// A 2x2 determinant of whole numbers is whole.
proof fn lemma_minor_integral(p: real, q: real, r: real, s: real)
    requires
        is_integer(p),
        is_integer(q),
        is_integer(r),
        is_integer(s),
    ensures
        is_integer(p * q - r * s),
{
    lemma_integer_ring(p, q);
    lemma_integer_ring(r, s);
    lemma_integer_ring(p * q, r * s);
}

impl RealAffine3 {
    /// The linear part is a whole matrix with determinant `+1` or `-1`: the
    /// map takes the lattice onto itself, up to a translation.
    pub open spec fn is_lattice_map(self) -> bool {
        self.mat.is_integral() && (self.mat.det() == 1real || self.mat.det() == -1real)
    }

    /// A whole matrix with determinant `+1` or `-1` maps a triple to a whole
    /// triple only if the triple is whole.
    pub proof fn lemma_preimage_integral(self, v: Real3)
        requires
            self.is_lattice_map(),
            self.mat.apply(v).is_integral(),
        ensures
            v.is_integral(),
    {
        let m = self.mat;
        m.lemma_inverse_integral();
        m.lemma_inverse();
        m.inverse().lemma_apply_integral(m.apply(v));
        m.inverse().lemma_apply_mul(m, v);
        RealMat3::lemma_apply_identity(v);
    }

    /// Modulo the lattice translations a lattice map can be cancelled on the
    /// left: two reduced maps that give the same reduced composition with it
    /// are the same.
    pub proof fn lemma_cancel(self, x: RealAffine3, y: RealAffine3)
        requires
            self.is_lattice_map(),
            x.translation.is_centered(),
            y.translation.is_centered(),
            self.compose(x).wrap_centered(1, 1, 1) == self.compose(y).wrap_centered(1, 1, 1),
        ensures
            x == y,
    {
        let m = self.mat;
        let t = self.translation;
        m.lemma_cancel_left(x.mat, y.mat);
        let u = m.apply(x.translation).add(t);
        let v = m.apply(y.translation).add(t);
        u.lemma_wrap_centered_congruent(v);
        m.lemma_apply_sub(x.translation, y.translation);
        assert(u.sub(v) == m.apply(x.translation).sub(m.apply(y.translation)));
        self.lemma_preimage_integral(x.translation.sub(y.translation));
        x.translation.lemma_centered_equal(y.translation);
    }

    /// Modulo the lattice translations only the identity leaves a reduced
    /// lattice map as it is.
    pub proof fn lemma_neutral(self, x: RealAffine3)
        requires
            self.is_lattice_map(),
            self.translation.is_centered(),
            x.translation.is_centered(),
            self.compose(x).wrap_centered(1, 1, 1) == self,
        ensures
            x == RealAffine3::identity(),
    {
        let e = RealAffine3::identity();
        self.mat.lemma_mul_identity();
        RealMat3::lemma_apply_identity(self.translation);
        assert(self.mat.apply(Real3::zero()) == Real3::zero()) by {
            lemma_zero_image(self.mat);
        }
        assert(self.compose(e) == self);
        self.translation.lemma_wrap_centered_fixed();
        self.lemma_cancel(x, e);
    }

    /// Modulo the lattice translations the reduced map that composes with a
    /// lattice map to the identity is the reduced inverse.
    pub proof fn lemma_inverse_unique(self, y: RealAffine3)
        requires
            self.is_lattice_map(),
            y.translation.is_centered(),
            self.compose(y).wrap_centered(1, 1, 1) == RealAffine3::identity(),
        ensures
            y == self.inverse().wrap_centered(1, 1, 1),
    {
        let inv = self.inverse().wrap_centered(1, 1, 1);
        self.lemma_inverse();
        self.inverse().translation.lemma_wrap_centered_fixed();
        // The reduced inverse composes to the identity as well.
        let m = self.mat;
        let t = self.translation;
        let s = self.inverse().translation;
        let c = s.wrap_centered(1, 1, 1);
        s.lemma_wrap_centered_congruent(c);
        c.lemma_wrap_centered_fixed();
        assert(s.wrap_centered(1, 1, 1) == c.wrap_centered(1, 1, 1));
        // s - c is whole, so m (s - c) is whole, so m s + t and m c + t reduce alike.
        m.lemma_apply_integral(s.sub(c));
        m.lemma_apply_sub(s, c);
        let u = m.apply(s).add(t);
        let v = m.apply(c).add(t);
        assert(u.sub(v) == m.apply(s).sub(m.apply(c)));
        u.lemma_wrap_centered_congruent(v);
        assert(u == Real3::zero());
        assert(self.compose(inv).wrap_centered(1, 1, 1) == self.compose(self.inverse()).wrap_centered(
            1,
            1,
            1,
        ));
        Real3::zero().lemma_wrap_centered_fixed();
        self.lemma_cancel(y, inv);
    }
}

/// A matrix maps zero to zero.
proof fn lemma_zero_image(m: RealMat3)
    ensures
        m.apply(Real3::zero()) == Real3::zero(),
{
    assert(m.m00 * 0real == 0real && m.m01 * 0real == 0real && m.m02 * 0real == 0real)
        by (nonlinear_arith);
    assert(m.m10 * 0real == 0real && m.m11 * 0real == 0real && m.m12 * 0real == 0real)
        by (nonlinear_arith);
    assert(m.m20 * 0real == 0real && m.m21 * 0real == 0real && m.m22 * 0real == 0real)
        by (nonlinear_arith);
}

/// Reduction into `[0, 1)` moves a number by a whole number.
pub proof fn lemma_wrap_shift(x: real)
    ensures
        is_integer(x - wrap(x, 1)),
        0real <= wrap(x, 1) < 1real,
{
    lemma_wrap(x, 1);
    let k = wrap_quotient(x, 1);
    assert(x - wrap(x, 1) == whole(k));
}

/// Two numbers have the same reduction into `[0, 1)` exactly when they differ
/// by a whole number.
pub proof fn lemma_wrap_congruent(x: real, y: real)
    ensures
        wrap(x, 1) == wrap(y, 1) <==> is_integer(x - y),
{
    lemma_wrap_shift(x);
    lemma_wrap_shift(y);
    let cx = wrap(x, 1);
    let cy = wrap(y, 1);
    if cx == cy {
        lemma_integer_ring(x - cx, y - cy);
        assert((x - cx) - (y - cy) == x - y);
    }
    if is_integer(x - y) {
        lemma_integer_ring(x - y, x - cx);
        lemma_integer_ring((x - y) - (x - cx), y - cy);
        assert(((x - y) - (x - cx)) + (y - cy) == cx - cy);
        lemma_small_integer(cx - cy);
    }
}

impl Real3 {
    /// Two triples have the same reduction into the unit cell exactly when
    /// they differ by a whole triple.
    pub proof fn lemma_wrap_congruent(self, v: Real3)
        ensures
            self.wrap(1, 1, 1) == v.wrap(1, 1, 1) <==> self.sub(v).is_integral(),
    {
        lemma_wrap_congruent(self.x, v.x);
        lemma_wrap_congruent(self.y, v.y);
        lemma_wrap_congruent(self.z, v.z);
    }

    /// Reduction into the unit cell moves a triple by a whole triple.
    pub proof fn lemma_wrap_shift(self)
        ensures
            self.sub(self.wrap(1, 1, 1)).is_integral(),
    {
        lemma_wrap_shift(self.x);
        lemma_wrap_shift(self.y);
        lemma_wrap_shift(self.z);
    }

    /// Reduction modulo the lattice moves a triple by a whole triple.
    pub proof fn lemma_wrap_centered_shift(self)
        ensures
            self.sub(self.wrap_centered(1, 1, 1)).is_integral(),
    {
        lemma_wrap_centered_shift(self.x);
        lemma_wrap_centered_shift(self.y);
        lemma_wrap_centered_shift(self.z);
    }
}

impl RealAffine3 {
    /// The image under a composition is the image of the image.
    pub proof fn lemma_compose_apply(self, h: RealAffine3, p: Real3)
        ensures
            self.compose(h).apply_pos(p) == self.apply_pos(h.apply_pos(p)),
    {
        let m = self.mat;
        m.lemma_apply_mul(h.mat, p);
        m.lemma_apply_add(h.mat.apply(p), h.translation);
    }

    /// Modulo the lattice translations a lattice map acts on the positions of
    /// the unit cell: the reduced image of a reduced image is the reduced
    /// image under the reduced composition.
    pub proof fn lemma_action(self, h: RealAffine3, p: Real3)
        requires
            self.is_lattice_map(),
        ensures
            self.apply_pos(h.apply_pos(p).wrap(1, 1, 1)).wrap(1, 1, 1) == self.compose(
                h,
            ).wrap_centered(1, 1, 1).apply_pos(p).wrap(1, 1, 1),
    {
        let m = self.mat;
        let t = self.translation;
        let x = h.apply_pos(p);
        let full = self.apply_pos(x);
        // Left: the image of the reduced x differs from the image of x by a whole triple.
        let xr = x.wrap(1, 1, 1);
        x.lemma_wrap_shift();
        m.lemma_apply_integral(x.sub(xr));
        m.lemma_apply_sub(x, xr);
        let left = self.apply_pos(xr);
        assert(full.sub(left) == m.apply(x).sub(m.apply(xr)));
        full.lemma_wrap_congruent(left);
        // Right: the reduced composition differs from the composition by a whole translation.
        let c = self.compose(h);
        let cr = c.wrap_centered(1, 1, 1);
        self.lemma_compose_apply(h, p);
        c.translation.lemma_wrap_centered_shift();
        let right = cr.apply_pos(p);
        assert(full.sub(right) == c.translation.sub(cr.translation));
        full.lemma_wrap_congruent(right);
    }
}

} // verus!
