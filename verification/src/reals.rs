//! The mathematical model of the affine algebra: triples, 3x3 matrices and
//! affine maps over the real numbers. The executable types of the library are
//! viewed as these, and their contracts are stated over them.
use vstd::prelude::*;

verus! {

/// A triple of real numbers: the value of a vector or of a position.
pub struct Real3 {
    pub x: real,
    pub y: real,
    pub z: real,
}

/// A 3x3 matrix of real numbers, `mRC` standing in row `R` and column `C`.
pub struct RealMat3 {
    pub m00: real,
    pub m01: real,
    pub m02: real,
    pub m10: real,
    pub m11: real,
    pub m12: real,
    pub m20: real,
    pub m21: real,
    pub m22: real,
}

/// The affine map `x -> mat * x + translation`.
pub struct RealAffine3 {
    pub mat: RealMat3,
    pub translation: Real3,
}

/// The remainder of `a` modulo `b`, with the sign of `b`:
/// `a - floor(a / b) * b`.
pub open spec fn real_rem(a: real, b: real) -> real {
    a - ((a / b).floor() as real) * b
}

/// `x` reduced into `[0, b)` by a multiple of `b`.
pub open spec fn wrap(x: real, b: int) -> real {
    real_rem(x, b as real)
}

/// `x` reduced into `(-b/2, b/2]` by a multiple of `b`: the shortest
/// displacement among its periodic images.
pub open spec fn wrap_centered(x: real, b: int) -> real {
    if 2real * wrap(x, b) > b as real {
        wrap(x, b) - b as real
    } else {
        wrap(x, b)
    }
}

/// The whole number of bounds that `wrap` takes away from `x`.
pub open spec fn wrap_quotient(x: real, b: int) -> int {
    (x / (b as real)).floor()
}

/// The whole number of bounds that `wrap_centered` takes away from `x`.
pub open spec fn wrap_centered_quotient(x: real, b: int) -> int {
    if 2real * wrap(x, b) > b as real {
        wrap_quotient(x, b) + 1
    } else {
        wrap_quotient(x, b)
    }
}

/// For a positive bound, `wrap` lands in `[0, b)` and moves its argument by a
/// whole multiple of `b`.
pub proof fn lemma_wrap(x: real, b: int)
    requires
        b > 0,
    ensures
        0real <= wrap(x, b) < b as real,
        x - wrap(x, b) == (wrap_quotient(x, b) * b) as real,
{
    let br = b as real;
    let q = wrap_quotient(x, b);
    assert(0real <= x - (q as real) * br < br) by (nonlinear_arith)
        requires
            br > 0real,
            (q as real) <= x / br < (q as real) + 1real,
    ;
    assert((q * b) as real == (q as real) * br) by (nonlinear_arith)
        requires
            br == b as real,
    ;
}

/// `wrap` leaves what lies in `[0, b)` alone.
pub proof fn lemma_wrap_fixed(x: real, b: int)
    requires
        b > 0,
        0real <= x < b as real,
    ensures
        wrap(x, b) == x,
{
    let br = b as real;
    let q = wrap_quotient(x, b);
    assert(0real <= x / br < 1real) by (nonlinear_arith)
        requires
            0real <= x < br,
    ;
    assert(q == 0);
    assert((q as real) * br == 0real) by (nonlinear_arith)
        requires
            q == 0,
    ;
}

/// Reducing twice is reducing once.
pub proof fn lemma_wrap_idempotent(x: real, b: int)
    requires
        b > 0,
    ensures
        wrap(wrap(x, b), b) == wrap(x, b),
{
    lemma_wrap(x, b);
    lemma_wrap_fixed(wrap(x, b), b);
}

/// For a positive bound, `wrap_centered` lands in `(-b/2, b/2]` and moves its
/// argument by a whole multiple of `b`.
pub proof fn lemma_wrap_centered(x: real, b: int)
    requires
        b > 0,
    ensures
        -(b as real) < 2real * wrap_centered(x, b) <= b as real,
        x - wrap_centered(x, b) == (wrap_centered_quotient(x, b) * b) as real,
{
    lemma_wrap(x, b);
    let q = wrap_quotient(x, b);
    assert(((q + 1) * b) as real == (q * b) as real + b as real) by (nonlinear_arith);
}

/// `wrap_centered` leaves what lies in `(-b/2, b/2]` alone.
pub proof fn lemma_wrap_centered_fixed(x: real, b: int)
    requires
        b > 0,
        -(b as real) < 2real * x <= b as real,
    ensures
        wrap_centered(x, b) == x,
{
    let br = b as real;
    let q = wrap_quotient(x, b);
    if x >= 0real {
        lemma_wrap_fixed(x, b);
    } else {
        assert(-1real <= x / br < 0real) by (nonlinear_arith)
            requires
                -br < 2real * x,
                x < 0real,
                br > 0real,
        ;
        assert(q == -1);
        assert((q as real) * br == -br) by (nonlinear_arith)
            requires
                q == -1,
        ;
    }
}

/// Reducing a displacement twice is reducing it once.
pub proof fn lemma_wrap_centered_idempotent(x: real, b: int)
    requires
        b > 0,
    ensures
        wrap_centered(wrap_centered(x, b), b) == wrap_centered(x, b),
{
    lemma_wrap_centered(x, b);
    lemma_wrap_centered_fixed(wrap_centered(x, b), b);
}

/// The whole number `n` as a real.
pub open spec fn whole(n: int) -> real {
    n as real
}

/// `x` is a whole number.
pub open spec fn is_integer(x: real) -> bool {
    exists|n: int| x == #[trigger] whole(n)
}

impl Real3 {
    /// The triple of zeros.
    pub open spec fn zero() -> Real3 {
        Real3 { x: 0real, y: 0real, z: 0real }
    }

    /// The sum, coordinate by coordinate.
    pub open spec fn add(self, rhs: Real3) -> Real3 {
        Real3 { x: self.x + rhs.x, y: self.y + rhs.y, z: self.z + rhs.z }
    }

    /// The difference, coordinate by coordinate.
    pub open spec fn sub(self, rhs: Real3) -> Real3 {
        Real3 { x: self.x - rhs.x, y: self.y - rhs.y, z: self.z - rhs.z }
    }

    /// The opposite triple.
    pub open spec fn neg(self) -> Real3 {
        Real3 { x: -self.x, y: -self.y, z: -self.z }
    }

    /// Every coordinate multiplied by `k`.
    pub open spec fn scale(self, k: real) -> Real3 {
        Real3 { x: self.x * k, y: self.y * k, z: self.z * k }
    }

    /// The dot product.
    pub open spec fn dot(self, rhs: Real3) -> real {
        self.x * rhs.x + self.y * rhs.y + self.z * rhs.z
    }

    /// Each coordinate reduced into `[0, bound)`.
    pub open spec fn wrap(self, bx: int, by: int, bz: int) -> Real3 {
        Real3 { x: wrap(self.x, bx), y: wrap(self.y, by), z: wrap(self.z, bz) }
    }

    /// Each coordinate reduced into `(-bound/2, bound/2]`.
    pub open spec fn wrap_centered(self, bx: int, by: int, bz: int) -> Real3 {
        Real3 {
            x: wrap_centered(self.x, bx),
            y: wrap_centered(self.y, by),
            z: wrap_centered(self.z, bz),
        }
    }

    /// All three coordinates are whole numbers.
    pub open spec fn is_integral(self) -> bool {
        is_integer(self.x) && is_integer(self.y) && is_integer(self.z)
    }
}

impl RealMat3 {
    /// The identity matrix.
    pub open spec fn identity() -> RealMat3 {
        RealMat3 {
            m00: 1real,
            m01: 0real,
            m02: 0real,
            m10: 0real,
            m11: 1real,
            m12: 0real,
            m20: 0real,
            m21: 0real,
            m22: 1real,
        }
    }

    /// The first row.
    pub open spec fn row0(self) -> Real3 {
        Real3 { x: self.m00, y: self.m01, z: self.m02 }
    }

    /// The second row.
    pub open spec fn row1(self) -> Real3 {
        Real3 { x: self.m10, y: self.m11, z: self.m12 }
    }

    /// The third row.
    pub open spec fn row2(self) -> Real3 {
        Real3 { x: self.m20, y: self.m21, z: self.m22 }
    }

    /// The first column.
    pub open spec fn col0(self) -> Real3 {
        Real3 { x: self.m00, y: self.m10, z: self.m20 }
    }

    /// The second column.
    pub open spec fn col1(self) -> Real3 {
        Real3 { x: self.m01, y: self.m11, z: self.m21 }
    }

    /// The third column.
    pub open spec fn col2(self) -> Real3 {
        Real3 { x: self.m02, y: self.m12, z: self.m22 }
    }

    /// The matrix product `self * rhs`.
    pub open spec fn mul(self, rhs: RealMat3) -> RealMat3 {
        RealMat3 {
            m00: self.row0().dot(rhs.col0()),
            m01: self.row0().dot(rhs.col1()),
            m02: self.row0().dot(rhs.col2()),
            m10: self.row1().dot(rhs.col0()),
            m11: self.row1().dot(rhs.col1()),
            m12: self.row1().dot(rhs.col2()),
            m20: self.row2().dot(rhs.col0()),
            m21: self.row2().dot(rhs.col1()),
            m22: self.row2().dot(rhs.col2()),
        }
    }

    /// The matrix applied to a column triple.
    pub open spec fn apply(self, v: Real3) -> Real3 {
        Real3 { x: self.row0().dot(v), y: self.row1().dot(v), z: self.row2().dot(v) }
    }

    /// Every entry multiplied by `k`.
    pub open spec fn scale(self, k: real) -> RealMat3 {
        RealMat3 {
            m00: self.m00 * k,
            m01: self.m01 * k,
            m02: self.m02 * k,
            m10: self.m10 * k,
            m11: self.m11 * k,
            m12: self.m12 * k,
            m20: self.m20 * k,
            m21: self.m21 * k,
            m22: self.m22 * k,
        }
    }

    /// The transposed matrix.
    pub open spec fn transpose(self) -> RealMat3 {
        RealMat3 {
            m00: self.m00,
            m01: self.m10,
            m02: self.m20,
            m10: self.m01,
            m11: self.m11,
            m12: self.m21,
            m20: self.m02,
            m21: self.m12,
            m22: self.m22,
        }
    }

    /// The determinant, expanded along the first row.
    pub open spec fn det(self) -> real {
        self.m00 * (self.m11 * self.m22 - self.m12 * self.m21) - self.m01 * (self.m10 * self.m22
            - self.m12 * self.m20) + self.m02 * (self.m10 * self.m21 - self.m11 * self.m20)
    }

    /// The matrix of cofactors: each entry is the signed determinant of the
    /// 2x2 matrix left when its row and column are struck out.
    pub open spec fn cofactor(self) -> RealMat3 {
        RealMat3 {
            m00: self.m11 * self.m22 - self.m12 * self.m21,
            m01: self.m12 * self.m20 - self.m10 * self.m22,
            m02: self.m10 * self.m21 - self.m11 * self.m20,
            m10: self.m21 * self.m02 - self.m22 * self.m01,
            m11: self.m00 * self.m22 - self.m02 * self.m20,
            m12: self.m01 * self.m20 - self.m00 * self.m21,
            m20: self.m01 * self.m12 - self.m02 * self.m11,
            m21: self.m02 * self.m10 - self.m00 * self.m12,
            m22: self.m00 * self.m11 - self.m01 * self.m10,
        }
    }

    /// The transposed matrix of cofactors.
    pub open spec fn adjoint(self) -> RealMat3 {
        self.cofactor().transpose()
    }

    /// The inverse matrix, where the determinant is not zero.
    pub open spec fn inverse(self) -> RealMat3 {
        self.adjoint().scale(1real / self.det())
    }

    /// Every entry is a whole number.
    pub open spec fn is_integral(self) -> bool {
        self.row0().is_integral() && self.row1().is_integral() && self.row2().is_integral()
    }
}

/// The product of three reals, which does not depend on their order.
pub open spec fn mul3(x: real, y: real, z: real) -> real {
    x * (y * z)
}

/// `mul3` takes its arguments in any order.
pub proof fn lemma_mul3_symmetric(x: real, y: real, z: real)
    ensures
        mul3(x, y, z) == mul3(x, z, y),
        mul3(x, y, z) == mul3(y, x, z),
        mul3(x, y, z) == mul3(y, z, x),
        mul3(x, y, z) == mul3(z, x, y),
        mul3(x, y, z) == mul3(z, y, x),
{
    assert(x * (y * z) == x * (z * y)) by (nonlinear_arith);
    assert(x * (y * z) == y * (x * z)) by (nonlinear_arith);
    assert(x * (y * z) == y * (z * x)) by (nonlinear_arith);
    assert(x * (y * z) == z * (x * y)) by (nonlinear_arith);
    assert(x * (y * z) == z * (y * x)) by (nonlinear_arith);
}

/// A factor distributes over a difference of products.
pub proof fn lemma_mul_minor(x: real, p: real, q: real, r: real, s: real)
    ensures
        x * (p * q - r * s) == mul3(x, p, q) - mul3(x, r, s),
        (p * q - r * s) * x == mul3(x, p, q) - mul3(x, r, s),
{
    let u = p * q;
    let v = r * s;
    assert(x * (u - v) == x * u - x * v) by (nonlinear_arith);
    assert((u - v) * x == x * u - x * v) by (nonlinear_arith);
}

impl Real3 {
    /// The cross product.
    pub open spec fn cross(self, rhs: Real3) -> Real3 {
        Real3 {
            x: self.y * rhs.z - self.z * rhs.y,
            y: self.z * rhs.x - self.x * rhs.z,
            z: self.x * rhs.y - self.y * rhs.x,
        }
    }

    /// The triple product `self . (v x w)`: the determinant of the matrix
    /// whose rows are `self`, `v` and `w`.
    pub open spec fn triple(self, v: Real3, w: Real3) -> real {
        self.dot(v.cross(w))
    }

    /// The triple product written out as six signed products.
    pub proof fn lemma_triple_expand(self, v: Real3, w: Real3)
        ensures
            self.triple(v, w) == mul3(self.x, v.y, w.z) - mul3(self.x, v.z, w.y) + mul3(
                self.y,
                v.z,
                w.x,
            ) - mul3(self.y, v.x, w.z) + mul3(self.z, v.x, w.y) - mul3(self.z, v.y, w.x),
    {
        lemma_mul_minor(self.x, v.y, w.z, v.z, w.y);
        lemma_mul_minor(self.y, v.z, w.x, v.x, w.z);
        lemma_mul_minor(self.z, v.x, w.y, v.y, w.x);
    }

    /// The triple product does not change when its arguments are rotated.
    pub proof fn lemma_triple_cyclic(self, v: Real3, w: Real3)
        ensures
            self.triple(v, w) == v.triple(w, self),
            self.triple(v, w) == w.triple(self, v),
    {
        self.lemma_triple_expand(v, w);
        v.lemma_triple_expand(w, self);
        w.lemma_triple_expand(self, v);
        lemma_mul3_symmetric(self.x, v.y, w.z);
        lemma_mul3_symmetric(self.x, v.z, w.y);
        lemma_mul3_symmetric(self.y, v.z, w.x);
        lemma_mul3_symmetric(self.y, v.x, w.z);
        lemma_mul3_symmetric(self.z, v.x, w.y);
        lemma_mul3_symmetric(self.z, v.y, w.x);
    }

    /// The triple product is zero when two of its arguments are the same.
    pub proof fn lemma_triple_repeated(self, v: Real3)
        ensures
            self.triple(self, v) == 0real,
            self.triple(v, self) == 0real,
            v.triple(self, self) == 0real,
    {
        self.lemma_triple_expand(self, v);
        lemma_mul3_symmetric(self.x, self.y, v.z);
        lemma_mul3_symmetric(self.x, self.z, v.y);
        lemma_mul3_symmetric(self.y, self.z, v.x);
        self.lemma_triple_cyclic(v, self);
        self.lemma_triple_cyclic(self, v);
    }

    /// Scaling one argument of a dot product scales the product.
    pub proof fn lemma_dot_scale(self, v: Real3, k: real)
        ensures
            self.dot(v.scale(k)) == self.dot(v) * k,
            self.scale(k).dot(v) == self.dot(v) * k,
    {
        let (p, q, r) = (self.x * v.x, self.y * v.y, self.z * v.z);
        assert(self.x * (v.x * k) == (self.x * v.x) * k) by (nonlinear_arith);
        assert(self.y * (v.y * k) == (self.y * v.y) * k) by (nonlinear_arith);
        assert(self.z * (v.z * k) == (self.z * v.z) * k) by (nonlinear_arith);
        assert((self.x * k) * v.x == (self.x * v.x) * k) by (nonlinear_arith);
        assert((self.y * k) * v.y == (self.y * v.y) * k) by (nonlinear_arith);
        assert((self.z * k) * v.z == (self.z * v.z) * k) by (nonlinear_arith);
        assert((p + q + r) * k == p * k + q * k + r * k) by (nonlinear_arith);
    }
}

impl RealMat3 {
    /// The rows of the cofactor matrix are the cross products of the other two
    /// rows, and the determinant is the triple product of the rows.
    pub proof fn lemma_cofactor_rows(self)
        ensures
            self.cofactor().row0() == self.row1().cross(self.row2()),
            self.cofactor().row1() == self.row2().cross(self.row0()),
            self.cofactor().row2() == self.row0().cross(self.row1()),
            self.det() == self.row0().triple(self.row1(), self.row2()),
    {
        let u = self.row0();
        let v = self.row1();
        let w = self.row2();
        u.lemma_triple_expand(v, w);
        lemma_mul_minor(self.m00, self.m11, self.m22, self.m12, self.m21);
        lemma_mul_minor(self.m01, self.m10, self.m22, self.m12, self.m20);
        lemma_mul_minor(self.m02, self.m10, self.m21, self.m11, self.m20);
        lemma_mul3_symmetric(self.m01, self.m12, self.m20);
        lemma_mul3_symmetric(self.m01, self.m10, self.m22);
    }

    /// A matrix times its adjoint is the determinant times the identity.
    pub proof fn lemma_mul_adjoint(self)
        ensures
            self.mul(self.adjoint()) == RealMat3::identity().scale(self.det()),
    {
        let u = self.row0();
        let v = self.row1();
        let w = self.row2();
        self.lemma_cofactor_rows();
        u.lemma_triple_cyclic(v, w);
        u.lemma_triple_repeated(v);
        u.lemma_triple_repeated(w);
        v.lemma_triple_repeated(u);
        v.lemma_triple_repeated(w);
        w.lemma_triple_repeated(u);
        w.lemma_triple_repeated(v);
        let c = self.cofactor();
        let p = self.mul(self.adjoint());
        assert(p.m00 == u.dot(c.row0()));
        assert(p.m01 == u.dot(c.row1()));
        assert(p.m02 == u.dot(c.row2()));
        assert(p.m10 == v.dot(c.row0()));
        assert(p.m11 == v.dot(c.row1()));
        assert(p.m12 == v.dot(c.row2()));
        assert(p.m20 == w.dot(c.row0()));
        assert(p.m21 == w.dot(c.row1()));
        assert(p.m22 == w.dot(c.row2()));
    }
}

impl Real3 {
    /// The dot product does not depend on the order of its arguments.
    pub proof fn lemma_dot_symmetric(self, v: Real3)
        ensures
            self.dot(v) == v.dot(self),
    {
        assert(self.x * v.x == v.x * self.x) by (nonlinear_arith);
        assert(self.y * v.y == v.y * self.y) by (nonlinear_arith);
        assert(self.z * v.z == v.z * self.z) by (nonlinear_arith);
    }

    /// A dot product distributes over a sum.
    pub proof fn lemma_dot_add(self, u: Real3, v: Real3)
        ensures
            self.dot(u.add(v)) == self.dot(u) + self.dot(v),
    {
        assert(self.x * (u.x + v.x) == self.x * u.x + self.x * v.x) by (nonlinear_arith);
        assert(self.y * (u.y + v.y) == self.y * u.y + self.y * v.y) by (nonlinear_arith);
        assert(self.z * (u.z + v.z) == self.z * u.z + self.z * v.z) by (nonlinear_arith);
    }

    /// A dot product with the opposite triple is the opposite number.
    pub proof fn lemma_dot_neg(self, v: Real3)
        ensures
            self.dot(v.neg()) == -self.dot(v),
    {
        assert(self.x * (-v.x) == -(self.x * v.x)) by (nonlinear_arith);
        assert(self.y * (-v.y) == -(self.y * v.y)) by (nonlinear_arith);
        assert(self.z * (-v.z) == -(self.z * v.z)) by (nonlinear_arith);
    }

    /// The dot product with a matrix applied to a triple is the dot product of
    /// the row-times-matrix triple with that triple.
    pub proof fn lemma_dot_apply(self, n: RealMat3, v: Real3)
        ensures
            self.dot(n.apply(v)) == (Real3 {
                x: self.dot(n.col0()),
                y: self.dot(n.col1()),
                z: self.dot(n.col2()),
            }).dot(v),
    {
        lemma_expand_dot(self.x, n.m00, n.m01, n.m02, v);
        lemma_expand_dot(self.y, n.m10, n.m11, n.m12, v);
        lemma_expand_dot(self.z, n.m20, n.m21, n.m22, v);
        lemma_collect(self.x * n.m00, self.y * n.m10, self.z * n.m20, v.x);
        lemma_collect(self.x * n.m01, self.y * n.m11, self.z * n.m21, v.y);
        lemma_collect(self.x * n.m02, self.y * n.m12, self.z * n.m22, v.z);
    }
}

/// `k * (a . v)` written out term by term.
proof fn lemma_expand_dot(k: real, a: real, b: real, c: real, v: Real3)
    ensures
        k * (a * v.x + b * v.y + c * v.z) == (k * a) * v.x + (k * b) * v.y + (k * c) * v.z,
{
    let (p, q, r) = (a * v.x, b * v.y, c * v.z);
    assert(k * (p + q + r) == k * p + k * q + k * r) by (nonlinear_arith);
    assert(k * (a * v.x) == (k * a) * v.x) by (nonlinear_arith);
    assert(k * (b * v.y) == (k * b) * v.y) by (nonlinear_arith);
    assert(k * (c * v.z) == (k * c) * v.z) by (nonlinear_arith);
}

/// A common factor collected from three terms.
proof fn lemma_collect(p: real, q: real, r: real, k: real)
    ensures
        p * k + q * k + r * k == (p + q + r) * k,
{
    assert(p * k + q * k + r * k == (p + q + r) * k) by (nonlinear_arith);
}

impl RealMat3 {
    /// The columns of the cofactor matrix are the cross products of the other
    /// two columns, and the determinant is the triple product of the columns.
    pub proof fn lemma_cofactor_cols(self)
        ensures
            self.cofactor().col0() == self.col1().cross(self.col2()),
            self.cofactor().col1() == self.col2().cross(self.col0()),
            self.cofactor().col2() == self.col0().cross(self.col1()),
            self.det() == self.col0().triple(self.col1(), self.col2()),
    {
        self.lemma_cofactor_rows();
        self.row0().lemma_triple_expand(self.row1(), self.row2());
        self.col0().lemma_triple_expand(self.col1(), self.col2());
        lemma_mul3_symmetric(self.m00, self.m11, self.m22);
        lemma_mul3_symmetric(self.m00, self.m12, self.m21);
        lemma_mul3_symmetric(self.m01, self.m12, self.m20);
        lemma_mul3_symmetric(self.m01, self.m10, self.m22);
        lemma_mul3_symmetric(self.m02, self.m10, self.m21);
        lemma_mul3_symmetric(self.m02, self.m11, self.m20);
        lemma_mul3_symmetric(self.m10, self.m21, self.m02);
        lemma_mul3_symmetric(self.m10, self.m01, self.m22);
        lemma_mul3_symmetric(self.m20, self.m01, self.m12);
        lemma_mul3_symmetric(self.m20, self.m11, self.m02);
    }

    /// The adjoint of a matrix times the matrix is the determinant times the
    /// identity.
    pub proof fn lemma_adjoint_mul(self)
        ensures
            self.adjoint().mul(self) == RealMat3::identity().scale(self.det()),
    {
        let u = self.col0();
        let v = self.col1();
        let w = self.col2();
        self.lemma_cofactor_cols();
        u.lemma_triple_cyclic(v, w);
        u.lemma_triple_repeated(v);
        u.lemma_triple_repeated(w);
        v.lemma_triple_repeated(u);
        v.lemma_triple_repeated(w);
        w.lemma_triple_repeated(u);
        w.lemma_triple_repeated(v);
        let c = self.cofactor();
        let p = self.adjoint().mul(self);
        c.col0().lemma_dot_symmetric(u);
        c.col0().lemma_dot_symmetric(v);
        c.col0().lemma_dot_symmetric(w);
        c.col1().lemma_dot_symmetric(u);
        c.col1().lemma_dot_symmetric(v);
        c.col1().lemma_dot_symmetric(w);
        c.col2().lemma_dot_symmetric(u);
        c.col2().lemma_dot_symmetric(v);
        c.col2().lemma_dot_symmetric(w);
        assert(p.m00 == c.col0().dot(u));
        assert(p.m01 == c.col0().dot(v));
        assert(p.m02 == c.col0().dot(w));
        assert(p.m10 == c.col1().dot(u));
        assert(p.m11 == c.col1().dot(v));
        assert(p.m12 == c.col1().dot(w));
        assert(p.m20 == c.col2().dot(u));
        assert(p.m21 == c.col2().dot(v));
        assert(p.m22 == c.col2().dot(w));
    }

    /// Scaling the right factor scales the product.
    pub proof fn lemma_mul_scale(self, n: RealMat3, k: real)
        ensures
            self.mul(n.scale(k)) == self.mul(n).scale(k),
            self.scale(k).mul(n) == self.mul(n).scale(k),
    {
        self.row0().lemma_dot_scale(n.col0(), k);
        self.row0().lemma_dot_scale(n.col1(), k);
        self.row0().lemma_dot_scale(n.col2(), k);
        self.row1().lemma_dot_scale(n.col0(), k);
        self.row1().lemma_dot_scale(n.col1(), k);
        self.row1().lemma_dot_scale(n.col2(), k);
        self.row2().lemma_dot_scale(n.col0(), k);
        self.row2().lemma_dot_scale(n.col1(), k);
        self.row2().lemma_dot_scale(n.col2(), k);
    }

    /// A matrix whose determinant is not zero, times its inverse, is the
    /// identity, on either side.
    pub proof fn lemma_inverse(self)
        requires
            self.det() != 0real,
        ensures
            self.mul(self.inverse()) == RealMat3::identity(),
            self.inverse().mul(self) == RealMat3::identity(),
    {
        let det = self.det();
        let k = 1real / det;
        self.lemma_mul_adjoint();
        self.lemma_adjoint_mul();
        self.lemma_mul_scale(self.adjoint(), k);
        self.adjoint().lemma_mul_scale(self, k);
        assert((1real * det) * k == 1real && (0real * det) * k == 0real) by (nonlinear_arith)
            requires
                det != 0real,
                k == 1real / det,
        ;
    }

    /// Applying a product of matrices is applying one after the other.
    pub proof fn lemma_apply_mul(self, n: RealMat3, v: Real3)
        ensures
            self.apply(n.apply(v)) == self.mul(n).apply(v),
    {
        self.row0().lemma_dot_apply(n, v);
        self.row1().lemma_dot_apply(n, v);
        self.row2().lemma_dot_apply(n, v);
    }

    /// The identity matrix leaves every triple as it is.
    pub proof fn lemma_apply_identity(v: Real3)
        ensures
            RealMat3::identity().apply(v) == v,
    {
    }

    /// A matrix applied to a sum is the sum of the images.
    pub proof fn lemma_apply_add(self, u: Real3, v: Real3)
        ensures
            self.apply(u.add(v)) == self.apply(u).add(self.apply(v)),
    {
        self.row0().lemma_dot_add(u, v);
        self.row1().lemma_dot_add(u, v);
        self.row2().lemma_dot_add(u, v);
    }

    /// A matrix applied to the opposite triple gives the opposite image.
    pub proof fn lemma_apply_neg(self, v: Real3)
        ensures
            self.apply(v.neg()) == self.apply(v).neg(),
    {
        self.row0().lemma_dot_neg(v);
        self.row1().lemma_dot_neg(v);
        self.row2().lemma_dot_neg(v);
    }
}

impl RealAffine3 {
    /// The map that leaves everything where it is.
    pub open spec fn identity() -> RealAffine3 {
        RealAffine3 { mat: RealMat3::identity(), translation: Real3::zero() }
    }

    /// The map `self` after `rhs`: `x -> self(rhs(x))`.
    pub open spec fn compose(self, rhs: RealAffine3) -> RealAffine3 {
        RealAffine3 {
            mat: self.mat.mul(rhs.mat),
            translation: self.mat.apply(rhs.translation).add(self.translation),
        }
    }

    /// The image of a position: the linear part applied, then the translation
    /// added.
    pub open spec fn apply_pos(self, p: Real3) -> Real3 {
        self.mat.apply(p).add(self.translation)
    }

    /// The image of a displacement: the linear part applied.
    pub open spec fn apply_vec(self, v: Real3) -> Real3 {
        self.mat.apply(v)
    }

    /// The inverse map, where the determinant of the linear part is not zero.
    pub open spec fn inverse(self) -> RealAffine3 {
        RealAffine3 {
            mat: self.mat.inverse(),
            translation: self.mat.inverse().apply(self.translation).neg(),
        }
    }

    /// The map with its translation reduced into `(-bound/2, bound/2]`.
    pub open spec fn wrap_centered(self, bx: int, by: int, bz: int) -> RealAffine3 {
        RealAffine3 { mat: self.mat, translation: self.translation.wrap_centered(bx, by, bz) }
    }

    /// An invertible map composed with its inverse is the identity, on either
    /// side.
    pub proof fn lemma_inverse(self)
        requires
            self.mat.det() != 0real,
        ensures
            self.compose(self.inverse()) == RealAffine3::identity(),
            self.inverse().compose(self) == RealAffine3::identity(),
    {
        let m = self.mat;
        let n = m.inverse();
        let t = self.translation;
        m.lemma_inverse();
        m.lemma_apply_neg(n.apply(t));
        m.lemma_apply_mul(n, t);
        RealMat3::lemma_apply_identity(t);
    }

    /// An invertible map followed by its inverse brings every position and
    /// every displacement back.
    pub proof fn lemma_inverse_apply(self, p: Real3)
        requires
            self.mat.det() != 0real,
        ensures
            self.inverse().apply_pos(self.apply_pos(p)) == p,
            self.inverse().apply_vec(self.apply_vec(p)) == p,
            self.apply_pos(self.inverse().apply_pos(p)) == p,
            self.apply_vec(self.inverse().apply_vec(p)) == p,
    {
        let m = self.mat;
        let n = m.inverse();
        let t = self.translation;
        m.lemma_inverse();
        n.lemma_apply_add(m.apply(p), t);
        n.lemma_apply_mul(m, p);
        m.lemma_apply_mul(n, p);
        RealMat3::lemma_apply_identity(p);
        m.lemma_apply_add(n.apply(p), n.apply(t).neg());
        m.lemma_apply_neg(n.apply(t));
        m.lemma_apply_mul(n, t);
        RealMat3::lemma_apply_identity(t);
    }
}

impl Real3 {
    /// The combination `u * a + v * b + w * c`.
    pub open spec fn combine(a: real, u: Real3, b: real, v: Real3, c: real, w: Real3) -> Real3 {
        u.scale(a).add(v.scale(b)).add(w.scale(c))
    }

    /// The triple product is linear in its first argument.
    pub proof fn lemma_triple_linear(
        a: real,
        u: Real3,
        b: real,
        v: Real3,
        c: real,
        w: Real3,
        y: Real3,
        z: Real3,
    )
        ensures
            Real3::combine(a, u, b, v, c, w).triple(y, z) == u.triple(y, z) * a + v.triple(y, z)
                * b + w.triple(y, z) * c,
    {
        let n = y.cross(z);
        let p = Real3::combine(a, u, b, v, c, w);
        p.lemma_dot_symmetric(n);
        n.lemma_dot_add(u.scale(a).add(v.scale(b)), w.scale(c));
        n.lemma_dot_add(u.scale(a), v.scale(b));
        n.lemma_dot_scale(u, a);
        n.lemma_dot_scale(v, b);
        n.lemma_dot_scale(w, c);
        n.lemma_dot_symmetric(u);
        n.lemma_dot_symmetric(v);
        n.lemma_dot_symmetric(w);
    }

    /// Exchanging the last two arguments of the triple product changes its
    /// sign.
    pub proof fn lemma_triple_swap(self, v: Real3, w: Real3)
        ensures
            self.triple(w, v) == -self.triple(v, w),
    {
        self.lemma_triple_expand(v, w);
        self.lemma_triple_expand(w, v);
        lemma_mul3_symmetric(self.x, v.y, w.z);
        lemma_mul3_symmetric(self.x, v.z, w.y);
        lemma_mul3_symmetric(self.y, v.z, w.x);
        lemma_mul3_symmetric(self.y, v.x, w.z);
        lemma_mul3_symmetric(self.z, v.x, w.y);
        lemma_mul3_symmetric(self.z, v.y, w.x);
    }
}

/// `t0 * a + t1 * b + t2 * c` where two of the `t` are zero and the third is
/// `d` or `-d`.
proof fn lemma_pick(t0: real, t1: real, t2: real, a: real, b: real, c: real, d: real)
    ensures
        t0 == d && t1 == 0real && t2 == 0real ==> t0 * a + t1 * b + t2 * c == d * a,
        t0 == 0real && t1 == d && t2 == 0real ==> t0 * a + t1 * b + t2 * c == d * b,
        t0 == 0real && t1 == 0real && t2 == d ==> t0 * a + t1 * b + t2 * c == d * c,
        t0 == -d && t1 == 0real && t2 == 0real ==> t0 * a + t1 * b + t2 * c == -(d * a),
        t0 == 0real && t1 == -d && t2 == 0real ==> t0 * a + t1 * b + t2 * c == -(d * b),
        t0 == 0real && t1 == 0real && t2 == -d ==> t0 * a + t1 * b + t2 * c == -(d * c),
        t0 == 0real && t1 == 0real && t2 == 0real ==> t0 * a + t1 * b + t2 * c == 0real,
{
    assert(0real * a == 0real && 0real * b == 0real && 0real * c == 0real) by (nonlinear_arith);
    assert((-d) * a == -(d * a)) by (nonlinear_arith);
    assert((-d) * b == -(d * b)) by (nonlinear_arith);
    assert((-d) * c == -(d * c)) by (nonlinear_arith);
}

/// `0 * a + (d * p) * b - (d * q) * c == d * (p * b - q * c)` and its sign
/// variants, as they come up when a determinant is expanded.
proof fn lemma_pair(d: real, p: real, b: real, q: real, c: real)
    ensures
        (d * p) * b + (-(d * q)) * c == d * (p * b - q * c),
        (-(d * p)) * b + (d * q) * c == -(d * (p * b - q * c)),
{
    let u = p * b;
    let v = q * c;
    assert((d * p) * b == d * u) by (nonlinear_arith)
        requires
            u == p * b,
    ;
    assert((d * q) * c == d * v) by (nonlinear_arith)
        requires
            v == q * c,
    ;
    assert((-(d * q)) * c == -((d * q) * c)) by (nonlinear_arith);
    assert((-(d * p)) * b == -((d * p) * b)) by (nonlinear_arith);
    assert(d * (u - v) == d * u - d * v) by (nonlinear_arith);
}

impl RealMat3 {
    /// The rows of a product are combinations of the rows of the right factor.
    pub proof fn lemma_mul_rows(self, n: RealMat3)
        ensures
            self.mul(n).row0() == Real3::combine(
                self.m00,
                n.row0(),
                self.m01,
                n.row1(),
                self.m02,
                n.row2(),
            ),
            self.mul(n).row1() == Real3::combine(
                self.m10,
                n.row0(),
                self.m11,
                n.row1(),
                self.m12,
                n.row2(),
            ),
            self.mul(n).row2() == Real3::combine(
                self.m20,
                n.row0(),
                self.m21,
                n.row1(),
                self.m22,
                n.row2(),
            ),
    {
        self.row0().lemma_dot_symmetric(n.col0());
        self.row0().lemma_dot_symmetric(n.col1());
        self.row0().lemma_dot_symmetric(n.col2());
        self.row1().lemma_dot_symmetric(n.col0());
        self.row1().lemma_dot_symmetric(n.col1());
        self.row1().lemma_dot_symmetric(n.col2());
        self.row2().lemma_dot_symmetric(n.col0());
        self.row2().lemma_dot_symmetric(n.col1());
        self.row2().lemma_dot_symmetric(n.col2());
    }

    /// The determinant of a product is the product of the determinants.
    pub proof fn lemma_det_mul(self, n: RealMat3)
        ensures
            self.mul(n).det() == self.det() * n.det(),
    {
        let n0 = n.row0();
        let n1 = n.row1();
        let n2 = n.row2();
        let p = self.mul(n);
        let r0 = p.row0();
        let r1 = p.row1();
        let r2 = p.row2();
        let d = n.det();
        self.lemma_mul_rows(n);
        n.lemma_cofactor_rows();
        p.lemma_cofactor_rows();
        // The triple products of the rows of `n` among themselves.
        n0.lemma_triple_cyclic(n1, n2);
        n0.lemma_triple_swap(n1, n2);
        n1.lemma_triple_swap(n2, n0);
        n2.lemma_triple_swap(n0, n1);
        n0.lemma_triple_repeated(n1);
        n0.lemma_triple_repeated(n2);
        n1.lemma_triple_repeated(n0);
        n1.lemma_triple_repeated(n2);
        n2.lemma_triple_repeated(n0);
        n2.lemma_triple_repeated(n1);
        n0.lemma_triple_repeated(n0);
        n1.lemma_triple_repeated(n1);
        n2.lemma_triple_repeated(n2);
        // Third slot: triple(r2, ni, nj).
        Real3::lemma_triple_linear(self.m20, n0, self.m21, n1, self.m22, n2, n0, n1);
        Real3::lemma_triple_linear(self.m20, n0, self.m21, n1, self.m22, n2, n0, n2);
        Real3::lemma_triple_linear(self.m20, n0, self.m21, n1, self.m22, n2, n1, n0);
        Real3::lemma_triple_linear(self.m20, n0, self.m21, n1, self.m22, n2, n1, n2);
        Real3::lemma_triple_linear(self.m20, n0, self.m21, n1, self.m22, n2, n2, n0);
        Real3::lemma_triple_linear(self.m20, n0, self.m21, n1, self.m22, n2, n2, n1);
        Real3::lemma_triple_linear(self.m20, n0, self.m21, n1, self.m22, n2, n0, n0);
        Real3::lemma_triple_linear(self.m20, n0, self.m21, n1, self.m22, n2, n1, n1);
        Real3::lemma_triple_linear(self.m20, n0, self.m21, n1, self.m22, n2, n2, n2);
        lemma_pick(n0.triple(n0, n1), n1.triple(n0, n1), n2.triple(n0, n1), self.m20, self.m21, self.m22, d);
        lemma_pick(n0.triple(n0, n2), n1.triple(n0, n2), n2.triple(n0, n2), self.m20, self.m21, self.m22, d);
        lemma_pick(n0.triple(n1, n0), n1.triple(n1, n0), n2.triple(n1, n0), self.m20, self.m21, self.m22, d);
        lemma_pick(n0.triple(n1, n2), n1.triple(n1, n2), n2.triple(n1, n2), self.m20, self.m21, self.m22, d);
        lemma_pick(n0.triple(n2, n0), n1.triple(n2, n0), n2.triple(n2, n0), self.m20, self.m21, self.m22, d);
        lemma_pick(n0.triple(n2, n1), n1.triple(n2, n1), n2.triple(n2, n1), self.m20, self.m21, self.m22, d);
        lemma_pick(n0.triple(n0, n0), n1.triple(n0, n0), n2.triple(n0, n0), self.m20, self.m21, self.m22, d);
        lemma_pick(n0.triple(n1, n1), n1.triple(n1, n1), n2.triple(n1, n1), self.m20, self.m21, self.m22, d);
        lemma_pick(n0.triple(n2, n2), n1.triple(n2, n2), n2.triple(n2, n2), self.m20, self.m21, self.m22, d);
        assert(r2.triple(n0, n1) == d * self.m22);
        assert(r2.triple(n0, n2) == -(d * self.m21));
        assert(r2.triple(n1, n0) == -(d * self.m22));
        assert(r2.triple(n1, n2) == d * self.m20);
        assert(r2.triple(n2, n0) == d * self.m21);
        assert(r2.triple(n2, n1) == -(d * self.m20));
        assert(r2.triple(n0, n0) == 0real);
        assert(r2.triple(n1, n1) == 0real);
        assert(r2.triple(n2, n2) == 0real);
        // Second slot: triple(r1, r2, ni) == triple(ni, r1, r2).
        n0.lemma_triple_cyclic(r1, r2);
        n1.lemma_triple_cyclic(r1, r2);
        n2.lemma_triple_cyclic(r1, r2);
        Real3::lemma_triple_linear(self.m10, n0, self.m11, n1, self.m12, n2, r2, n0);
        Real3::lemma_triple_linear(self.m10, n0, self.m11, n1, self.m12, n2, r2, n1);
        Real3::lemma_triple_linear(self.m10, n0, self.m11, n1, self.m12, n2, r2, n2);
        n0.lemma_triple_cyclic(r2, n0);
        n1.lemma_triple_cyclic(r2, n0);
        n2.lemma_triple_cyclic(r2, n0);
        n0.lemma_triple_cyclic(r2, n1);
        n1.lemma_triple_cyclic(r2, n1);
        n2.lemma_triple_cyclic(r2, n1);
        n0.lemma_triple_cyclic(r2, n2);
        n1.lemma_triple_cyclic(r2, n2);
        n2.lemma_triple_cyclic(r2, n2);
        let u0 = n0.triple(r1, r2);
        let u1 = n1.triple(r1, r2);
        let u2 = n2.triple(r1, r2);
        let c0 = self.m11 * self.m22 - self.m12 * self.m21;
        let c1 = self.m10 * self.m22 - self.m12 * self.m20;
        let c2 = self.m10 * self.m21 - self.m11 * self.m20;
        assert(0real * self.m10 == 0real && 0real * self.m11 == 0real && 0real * self.m12 == 0real)
            by (nonlinear_arith);
        lemma_pair(d, self.m22, self.m11, self.m21, self.m12);
        lemma_pair(d, self.m22, self.m10, self.m20, self.m12);
        lemma_pair(d, self.m21, self.m10, self.m20, self.m11);
        assert(self.m22 * self.m11 == self.m11 * self.m22 && self.m21 * self.m12 == self.m12
            * self.m21 && self.m22 * self.m10 == self.m10 * self.m22 && self.m20 * self.m12
            == self.m12 * self.m20 && self.m21 * self.m10 == self.m10 * self.m21 && self.m20
            * self.m11 == self.m11 * self.m20) by (nonlinear_arith);
        assert(u0 == d * c0);
        assert(u1 == -(d * c1));
        assert(u2 == d * c2);
        // First slot.
        Real3::lemma_triple_linear(self.m00, n0, self.m01, n1, self.m02, n2, r1, r2);
        assert(p.det() == u0 * self.m00 + u1 * self.m01 + u2 * self.m02);
        let t0 = self.m00 * c0;
        let t1 = self.m01 * c1;
        let t2 = self.m02 * c2;
        assert((d * c0) * self.m00 == t0 * d) by (nonlinear_arith)
            requires
                t0 == self.m00 * c0,
        ;
        assert((-(d * c1)) * self.m01 == -(t1 * d)) by (nonlinear_arith)
            requires
                t1 == self.m01 * c1,
        ;
        assert((d * c2) * self.m02 == t2 * d) by (nonlinear_arith)
            requires
                t2 == self.m02 * c2,
        ;
        assert((t0 - t1 + t2) * d == t0 * d - t1 * d + t2 * d) by (nonlinear_arith);
    }

    /// The determinant of the identity is one.
    pub proof fn lemma_det_identity()
        ensures
            RealMat3::identity().det() == 1real,
    {
    }

    /// The determinant of the inverse is the inverse of the determinant.
    pub proof fn lemma_det_inverse(self)
        requires
            self.det() != 0real,
        ensures
            self.inverse().det() == 1real / self.det(),
    {
        self.lemma_inverse();
        self.lemma_det_mul(self.inverse());
        RealMat3::lemma_det_identity();
        let (a, b) = (self.det(), self.inverse().det());
        assert(b == 1real / a) by (nonlinear_arith)
            requires
                a * b == 1real,
                a != 0real,
        ;
    }
}

impl RealMat3 {
    /// The columns of a product are the images of the columns of the right
    /// factor.
    pub proof fn lemma_mul_cols(self, n: RealMat3)
        ensures
            self.mul(n).col0() == self.apply(n.col0()),
            self.mul(n).col1() == self.apply(n.col1()),
            self.mul(n).col2() == self.apply(n.col2()),
    {
    }

    /// A matrix is given by its columns.
    pub proof fn lemma_cols_equal(self, n: RealMat3)
        requires
            self.col0() == n.col0(),
            self.col1() == n.col1(),
            self.col2() == n.col2(),
        ensures
            self == n,
    {
    }

    /// Matrix multiplication is associative.
    pub proof fn lemma_mul_associative(self, n: RealMat3, p: RealMat3)
        ensures
            self.mul(n).mul(p) == self.mul(n.mul(p)),
    {
        self.mul(n).lemma_mul_cols(p);
        n.lemma_mul_cols(p);
        self.lemma_mul_cols(n.mul(p));
        self.lemma_apply_mul(n, p.col0());
        self.lemma_apply_mul(n, p.col1());
        self.lemma_apply_mul(n, p.col2());
        self.mul(n).mul(p).lemma_cols_equal(self.mul(n.mul(p)));
    }

    /// The identity is neutral for matrix multiplication.
    pub proof fn lemma_mul_identity(self)
        ensures
            RealMat3::identity().mul(self) == self,
            self.mul(RealMat3::identity()) == self,
    {
        lemma_times_unit(self.m00);
        lemma_times_unit(self.m01);
        lemma_times_unit(self.m02);
        lemma_times_unit(self.m10);
        lemma_times_unit(self.m11);
        lemma_times_unit(self.m12);
        lemma_times_unit(self.m20);
        lemma_times_unit(self.m21);
        lemma_times_unit(self.m22);
    }

    /// A factor whose determinant is not zero can be cancelled on the left.
    pub proof fn lemma_cancel_left(self, x: RealMat3, y: RealMat3)
        requires
            self.det() != 0real,
            self.mul(x) == self.mul(y),
        ensures
            x == y,
    {
        let inv = self.inverse();
        self.lemma_inverse();
        inv.lemma_mul_associative(self, x);
        inv.lemma_mul_associative(self, y);
        x.lemma_mul_identity();
        y.lemma_mul_identity();
    }

    /// A matrix applied to a difference is the difference of the images.
    pub proof fn lemma_apply_sub(self, u: Real3, v: Real3)
        ensures
            self.apply(u.sub(v)) == self.apply(u).sub(self.apply(v)),
    {
        self.lemma_apply_add(u, v.neg());
        self.lemma_apply_neg(v);
        assert(u.sub(v) == u.add(v.neg()));
    }
}

/// Products with one and with zero.
proof fn lemma_times_unit(x: real)
    ensures
        x * 1real == x,
        1real * x == x,
        x * 0real == 0real,
        0real * x == 0real,
{
    assert(x * 1real == x && 1real * x == x && x * 0real == 0real && 0real * x == 0real)
        by (nonlinear_arith);
}

} // verus!
