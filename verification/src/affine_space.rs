//! Vectors, positions, matrices and affine maps with rational coordinates.
//!
//! A [`Pos3`] is an absolute periodic coordinate and a [`Vec3`] a
//! displacement: an affine map moves a position by its translation and leaves
//! a vector's translation alone. Reduction modulo [`Bounds3`] brings the
//! coordinates of a position into `[0, bound)` and those of a vector into
//! `(-bound/2, bound/2]`, the shortest of the equivalent displacements.
use vstd::prelude::*;
use crate::frac::Frac;
use crate::reals::{Real3, RealAffine3, RealMat3};

verus! {

/// A displacement with rational coordinates.
#[derive(Debug, Clone, Copy, PartialEq, Eq, Structural)]
pub struct Vec3 {
    pub x: Frac,
    pub y: Frac,
    pub z: Frac,
}

/// An absolute position with rational coordinates.
#[derive(Debug, Clone, Copy, PartialEq, Eq, Structural)]
pub struct Pos3 {
    pub x: Frac,
    pub y: Frac,
    pub z: Frac,
}

/// How many unit cells a supercell spans along each axis: three positive
/// integers.
#[derive(Debug, Clone, Copy)]
pub struct Bounds3 {
    x: i32,
    y: i32,
    z: i32,
}

impl View for Vec3 {
    type V = Real3;

    open spec fn view(&self) -> Real3 {
        Real3 { x: self.x@, y: self.y@, z: self.z@ }
    }
}

impl View for Pos3 {
    type V = Real3;

    open spec fn view(&self) -> Real3 {
        Real3 { x: self.x@, y: self.y@, z: self.z@ }
    }
}

impl Bounds3 {
    /// The bound along the first axis.
    pub closed spec fn spec_x(&self) -> i32 {
        self.x
    }

    /// The bound along the second axis.
    pub closed spec fn spec_y(&self) -> i32 {
        self.y
    }

    /// The bound along the third axis.
    pub closed spec fn spec_z(&self) -> i32 {
        self.z
    }

    /// All three bounds are positive. Every value that executable code holds
    /// satisfies this.
    pub open spec fn wf(self) -> bool {
        self.spec_x() > 0 && self.spec_y() > 0 && self.spec_z() > 0
    }

    #[verifier::type_invariant]
    pub(crate) open spec fn inv(self) -> bool {
        self.wf()
    }

    /// The bounds `(x, y, z)`.
    pub closed spec fn spec_new(x: i32, y: i32, z: i32) -> Bounds3 {
        Bounds3 { x, y, z }
    }

    /// The bounds `(x, y, z)`.
    #[verifier::when_used_as_spec(spec_new)]
    pub fn new(x: i32, y: i32, z: i32) -> (r: Bounds3)
        requires
            x > 0,
            y > 0,
            z > 0,
        ensures
            r == Bounds3::spec_new(x, y, z),
            r.x() == x,
            r.y() == y,
            r.z() == z,
            r.wf(),
    {
        proof {
            Bounds3::lemma_new(x, y, z);
        }
        Bounds3 { x, y, z }
    }

    /// The bounds `(val, val, val)`.
    pub fn splat(val: i32) -> (r: Bounds3)
        requires
            val > 0,
        ensures
            r.x() == val,
            r.y() == val,
            r.z() == val,
            r.wf(),
    {
        Bounds3 { x: val, y: val, z: val }
    }

    /// The bounds `(1, 1, 1)`.
    pub closed spec fn spec_unit() -> Bounds3 {
        Bounds3 { x: 1, y: 1, z: 1 }
    }

    /// The unit cell itself: the bounds `(1, 1, 1)`.
    #[verifier::when_used_as_spec(spec_unit)]
    pub fn unit() -> (r: Bounds3)
        ensures
            r == Bounds3::spec_unit(),
            r.x() == 1,
            r.y() == 1,
            r.z() == 1,
            r.wf(),
    {
        Bounds3 { x: 1, y: 1, z: 1 }
    }

    /// The bounds `(x, y, z)` have these three bounds.
    pub proof fn lemma_new(x: i32, y: i32, z: i32)
        ensures
            Bounds3::new(x, y, z).x() == x,
            Bounds3::new(x, y, z).y() == y,
            Bounds3::new(x, y, z).z() == z,
    {
    }

    /// The unit bounds are `(1, 1, 1)`.
    pub proof fn lemma_unit()
        ensures
            Bounds3::unit().x() == 1,
            Bounds3::unit().y() == 1,
            Bounds3::unit().z() == 1,
            Bounds3::unit().wf(),
    {
    }

    /// The bound along the first axis.
    #[verifier::when_used_as_spec(spec_x)]
    pub fn x(&self) -> (r: i32)
        ensures
            r == self.spec_x(),
            r > 0,
    {
        proof {
            use_type_invariant(self);
        }
        self.x
    }

    /// The bound along the second axis.
    #[verifier::when_used_as_spec(spec_y)]
    pub fn y(&self) -> (r: i32)
        ensures
            r == self.spec_y(),
            r > 0,
    {
        proof {
            use_type_invariant(self);
        }
        self.y
    }

    /// The bound along the third axis.
    #[verifier::when_used_as_spec(spec_z)]
    pub fn z(&self) -> (r: i32)
        ensures
            r == self.spec_z(),
            r > 0,
    {
        proof {
            use_type_invariant(self);
        }
        self.z
    }

    /// The number of unit cells in the supercell.
    pub open spec fn spec_volume(self) -> int {
        self.x() * self.y() * self.z()
    }

    /// The number of unit cells in the supercell; `None` exactly when it does
    /// not fit the integer type.
    pub fn volume(&self) -> (r: Option<i32>)
        ensures
            match r {
                Some(v) => v == self.spec_volume(),
                None => self.spec_volume() > i32::MAX,
            },
    {
        proof {
            use_type_invariant(self);
        }
        assert(0 < (self.x as int) * (self.y as int) <= 0x4000_0000_0000_0000)
            by (nonlinear_arith)
            requires
                0 < self.x <= 0x7fff_ffff,
                0 < self.y <= 0x7fff_ffff,
        ;
        let xy: i64 = (self.x as i64) * (self.y as i64);
        if xy > 0x7fff_ffff {
            assert(self.spec_volume() > i32::MAX) by (nonlinear_arith)
                requires
                    self.spec_volume() == xy * self.z,
                    xy > 0x7fff_ffff,
                    self.z >= 1,
            ;
            return None;
        }
        assert(0 < xy * (self.z as int) <= 0x4000_0000_0000_0000) by (nonlinear_arith)
            requires
                0 < xy <= 0x7fff_ffff,
                0 < self.z <= 0x7fff_ffff,
        ;
        let v: i64 = xy * (self.z as i64);
        if v > 0x7fff_ffff {
            None
        } else {
            Some(v as i32)
        }
    }

    /// The position is in its reduced form for these bounds: each coordinate
    /// lies in `[0, bound)`.
    pub open spec fn spec_contains_pos(&self, pos: Pos3) -> bool {
        &&& 0real <= pos.x@ < self.x() as real
        &&& 0real <= pos.y@ < self.y() as real
        &&& 0real <= pos.z@ < self.z() as real
    }

    /// Whether the position is in its reduced form for these bounds.
    #[verifier::when_used_as_spec(spec_contains_pos)]
    pub fn contains_pos(&self, pos: Pos3) -> (r: bool)
        ensures
            r == self.spec_contains_pos(pos),
    {
        proof {
            use_type_invariant(self);
        }
        in_range(pos.x, self.x) && in_range(pos.y, self.y) && in_range(pos.z, self.z)
    }

    /// The vector is in its reduced form for these bounds: each coordinate
    /// lies in `(-bound/2, bound/2]`.
    pub open spec fn spec_contains_vec(&self, vec: Vec3) -> bool {
        &&& -(self.x() as real) < 2real * vec.x@ <= self.x() as real
        &&& -(self.y() as real) < 2real * vec.y@ <= self.y() as real
        &&& -(self.z() as real) < 2real * vec.z@ <= self.z() as real
    }

    /// Whether the vector is in its reduced form for these bounds.
    #[verifier::when_used_as_spec(spec_contains_vec)]
    pub fn contains_vec(&self, vec: Vec3) -> (r: bool)
        ensures
            r == self.spec_contains_vec(vec),
    {
        proof {
            use_type_invariant(self);
        }
        in_centered_range(vec.x, self.x) && in_centered_range(vec.y, self.y) && in_centered_range(
            vec.z,
            self.z,
        )
    }

    /// Each of the three integers lies in `[0, bound)`.
    pub open spec fn spec_contains_arr(&self, arr: &[i32; 3]) -> bool {
        &&& 0 <= arr@[0] < self.x()
        &&& 0 <= arr@[1] < self.y()
        &&& 0 <= arr@[2] < self.z()
    }

    /// Whether each of the three integers lies in `[0, bound)`.
    #[verifier::when_used_as_spec(spec_contains_arr)]
    pub fn contains_arr(&self, arr: &[i32; 3]) -> (r: bool)
        ensures
            r == self.spec_contains_arr(arr),
    {
        0 <= arr[0] && arr[0] < self.x && 0 <= arr[1] && arr[1] < self.y && 0 <= arr[2] && arr[2]
            < self.z
    }
}

/// `0 <= p < bound`.
fn in_range(p: Frac, bound: i32) -> (r: bool)
    requires
        bound > 0,
    ensures
        r <==> 0real <= p@ < bound as real,
{
    proof {
        let b = bound as int;
        assert(crate::frac::rat(b, 1) == b as real && crate::frac::rat(0, 1) == 0real)
            by (nonlinear_arith);
    }
    p.less_than_ratio(bound, 1) && !p.less_than_ratio(0, 1)
}

/// `-bound/2 < p <= bound/2`.
fn in_centered_range(p: Frac, bound: i32) -> (r: bool)
    requires
        bound > 0,
    ensures
        r <==> -(bound as real) < 2real * p@ <= bound as real,
{
    proof {
        let b = bound as int;
        let x = p@;
        assert((x > crate::frac::rat(b, 2) <==> 2real * x > b as real) && (x > crate::frac::rat(
            -b,
            2,
        ) <==> 2real * x > -(b as real))) by (nonlinear_arith);
    }
    !p.exceeds_ratio(bound, 2) && p.exceeds_ratio(-bound, 2)
}

impl Vec3 {
    /// Every coordinate is a well-formed fraction; executable values always
    /// are.
    pub open spec fn wf(self) -> bool {
        self.x.wf() && self.y.wf() && self.z.wf()
    }

    /// The vector of value `v`, where all three coordinates can be stored.
    pub open spec fn checked(v: Real3) -> Option<Vec3> {
        Vec3::spec_from_options(Frac::checked(v.x), Frac::checked(v.y), Frac::checked(v.z))
    }

    /// The vector of three coordinates, where all three are there.
    pub open spec fn spec_from_options(x: Option<Frac>, y: Option<Frac>, z: Option<Frac>) -> Option<
        Vec3,
    > {
        match (x, y, z) {
            (Some(x), Some(y), Some(z)) => Some(Vec3 { x, y, z }),
            _ => None,
        }
    }

    /// The vector of three coordinates, where all three are there.
    #[verifier::when_used_as_spec(spec_from_options)]
    pub fn from_options(x: Option<Frac>, y: Option<Frac>, z: Option<Frac>) -> (r: Option<Vec3>)
        ensures
            r == Vec3::spec_from_options(x, y, z),
    {
        match (x, y, z) {
            (Some(x), Some(y), Some(z)) => Some(Vec3 { x, y, z }),
            _ => None,
        }
    }

    /// A well-formed vector is the checked vector of its own value.
    pub proof fn lemma_checked_some(a: Vec3, v: Real3)
        requires
            a.wf(),
            a@ == v,
        ensures
            Vec3::checked(v) == Some(a),
    {
        Frac::lemma_checked_some(a.x, v.x);
        Frac::lemma_checked_some(a.y, v.y);
        Frac::lemma_checked_some(a.z, v.z);
    }

    /// What `checked` answers is well formed and has the value asked for.
    pub proof fn lemma_checked_value(v: Real3)
        ensures
            Vec3::checked(v) matches Some(a) ==> a.wf() && a@ == v,
    {
    }

    /// The vector `(x, y, z)`.
    pub fn new(x: Frac, y: Frac, z: Frac) -> (r: Vec3)
        ensures
            r == (Vec3 { x, y, z }),
    {
        Vec3 { x, y, z }
    }

    /// The vector `(val, val, val)`.
    pub fn splat(val: Frac) -> (r: Vec3)
        ensures
            r == (Vec3 { x: val, y: val, z: val }),
    {
        Vec3 { x: val, y: val, z: val }
    }

    /// The zero vector.
    pub fn zero() -> (r: Vec3)
        ensures
            r@ == Real3::zero(),
            r.wf(),
    {
        Vec3 { x: Frac::zero(), y: Frac::zero(), z: Frac::zero() }
    }

    /// The vector of three whole numbers.
    pub fn from_ints(x: i32, y: i32, z: i32) -> (r: Vec3)
        ensures
            r@ == (Real3 { x: x as real, y: y as real, z: z as real }),
            r.wf(),
    {
        Vec3 { x: Frac::from_int(x), y: Frac::from_int(y), z: Frac::from_int(z) }
    }

    /// The position with the same coordinates.
    pub fn to_pos(self) -> (r: Pos3)
        ensures
            r == (Pos3 { x: self.x, y: self.y, z: self.z }),
    {
        Pos3 { x: self.x, y: self.y, z: self.z }
    }

    /// What [`Vec3::checked_add`] answers: the sum, where it can be stored.
    pub open spec fn spec_checked_add(self, rhs: Vec3) -> Option<Vec3> {
        Vec3::checked(self@.add(rhs@))
    }

    /// The sum of two vectors; `None` exactly when it cannot be stored.
    #[verifier::when_used_as_spec(spec_checked_add)]
    pub fn checked_add(self, rhs: Vec3) -> (r: Option<Vec3>)
        ensures
            r == self.spec_checked_add(rhs),
    {
        Vec3::from_options(
            self.x.checked_add(rhs.x),
            self.y.checked_add(rhs.y),
            self.z.checked_add(rhs.z),
        )
    }

    /// What [`Vec3::checked_sub`] answers: the difference, where it can be stored.
    pub open spec fn spec_checked_sub(self, rhs: Vec3) -> Option<Vec3> {
        Vec3::checked(self@.sub(rhs@))
    }

    /// The difference of two vectors; `None` exactly when it cannot be stored.
    #[verifier::when_used_as_spec(spec_checked_sub)]
    pub fn checked_sub(self, rhs: Vec3) -> (r: Option<Vec3>)
        ensures
            r == self.spec_checked_sub(rhs),
    {
        Vec3::from_options(
            self.x.checked_sub(rhs.x),
            self.y.checked_sub(rhs.y),
            self.z.checked_sub(rhs.z),
        )
    }

    /// What [`Vec3::checked_neg`] answers: the opposite vector, where it can be stored.
    pub open spec fn spec_checked_neg(self) -> Option<Vec3> {
        Vec3::checked(self@.neg())
    }

    /// The opposite vector; `None` exactly when it cannot be stored.
    #[verifier::when_used_as_spec(spec_checked_neg)]
    pub fn checked_neg(self) -> (r: Option<Vec3>)
        ensures
            r == self.spec_checked_neg(),
    {
        Vec3::from_options(self.x.checked_neg(), self.y.checked_neg(), self.z.checked_neg())
    }

    /// What [`Vec3::checked_mul`] answers: the scaled vector, where it can be stored.
    pub open spec fn spec_checked_mul(self, rhs: Frac) -> Option<Vec3> {
        Vec3::checked(self@.scale(rhs@))
    }

    /// The vector scaled by a fraction; `None` exactly when it cannot be
    /// stored.
    #[verifier::when_used_as_spec(spec_checked_mul)]
    pub fn checked_mul(self, rhs: Frac) -> (r: Option<Vec3>)
        ensures
            r == self.spec_checked_mul(rhs),
    {
        Vec3::from_options(
            self.x.checked_mul(rhs),
            self.y.checked_mul(rhs),
            self.z.checked_mul(rhs),
        )
    }

    /// What [`Vec3::checked_div`] answers: the vector divided by a fraction other than
    /// zero, where it can be stored.
    pub open spec fn spec_checked_div(self, rhs: Frac) -> Option<Vec3> {
        if rhs@ == 0real {
            None
        } else {
            Vec3::checked(
                Real3 { x: self.x@ / rhs@, y: self.y@ / rhs@, z: self.z@ / rhs@ },
            )
        }
    }

    /// The vector divided by a fraction; `None` exactly when the divisor is
    /// zero or the result cannot be stored.
    #[verifier::when_used_as_spec(spec_checked_div)]
    pub fn checked_div(self, rhs: Frac) -> (r: Option<Vec3>)
        ensures
            r == self.spec_checked_div(rhs),
    {
        Vec3::from_options(
            self.x.checked_div(rhs),
            self.y.checked_div(rhs),
            self.z.checked_div(rhs),
        )
    }

    /// What [`Vec3::dot`] answers.
    pub open spec fn spec_dot(&self, other: &Vec3) -> Option<Frac> {
        Frac::dot3(self.x, other.x, self.y, other.y, self.z, other.z)
    }

    /// The dot product; `None` when a product or a partial sum cannot be
    /// stored.
    #[verifier::when_used_as_spec(spec_dot)]
    pub fn dot(&self, other: &Vec3) -> (r: Option<Frac>)
        ensures
            r == self.spec_dot(other),
            r matches Some(d) ==> d@ == self@.dot(other@),
    {
        Frac::dot3(self.x, other.x, self.y, other.y, self.z, other.z)
    }

    /// What [`Vec3::norm_sq`] answers.
    pub open spec fn spec_norm_sq(&self) -> Option<Frac> {
        self.dot(self)
    }

    /// The square of the length; `None` when a product or a partial sum cannot
    /// be stored.
    #[verifier::when_used_as_spec(spec_norm_sq)]
    pub fn norm_sq(&self) -> (r: Option<Frac>)
        ensures
            r == self.spec_norm_sq(),
            r matches Some(d) ==> d@ == self@.dot(self@),
    {
        self.dot(self)
    }

    /// What [`Vec3::checked_rem`] answers: each coordinate reduced into
    /// `(-bound/2, bound/2]`, where the result can be stored.
    pub open spec fn spec_checked_rem(self, bounds: Bounds3) -> Option<Vec3> {
        Vec3::checked(self@.wrap_centered(bounds.x() as int, bounds.y() as int, bounds.z() as int))
    }

    /// The shortest displacement equivalent to `self` in the supercell: each
    /// coordinate reduced into `(-bound/2, bound/2]`. `None` exactly when it
    /// cannot be stored.
    #[verifier::when_used_as_spec(spec_checked_rem)]
    pub fn checked_rem(self, bounds: Bounds3) -> (r: Option<Vec3>)
        ensures
            r == self.spec_checked_rem(bounds),
    {
        Vec3::from_options(
            self.x.checked_wrap_centered(bounds.x()),
            self.y.checked_wrap_centered(bounds.y()),
            self.z.checked_wrap_centered(bounds.z()),
        )
    }
}

impl Pos3 {
    /// Every coordinate is a well-formed fraction; executable values always
    /// are.
    pub open spec fn wf(self) -> bool {
        self.x.wf() && self.y.wf() && self.z.wf()
    }

    /// The position of value `v`, where all three coordinates can be stored.
    pub open spec fn checked(v: Real3) -> Option<Pos3> {
        Pos3::spec_from_options(Frac::checked(v.x), Frac::checked(v.y), Frac::checked(v.z))
    }

    /// The position of three coordinates, where all three are there.
    pub open spec fn spec_from_options(x: Option<Frac>, y: Option<Frac>, z: Option<Frac>) -> Option<
        Pos3,
    > {
        match (x, y, z) {
            (Some(x), Some(y), Some(z)) => Some(Pos3 { x, y, z }),
            _ => None,
        }
    }

    /// The position of three coordinates, where all three are there.
    #[verifier::when_used_as_spec(spec_from_options)]
    pub fn from_options(x: Option<Frac>, y: Option<Frac>, z: Option<Frac>) -> (r: Option<Pos3>)
        ensures
            r == Pos3::spec_from_options(x, y, z),
    {
        match (x, y, z) {
            (Some(x), Some(y), Some(z)) => Some(Pos3 { x, y, z }),
            _ => None,
        }
    }

    /// A well-formed position is the checked position of its own value.
    pub proof fn lemma_checked_some(a: Pos3, v: Real3)
        requires
            a.wf(),
            a@ == v,
        ensures
            Pos3::checked(v) == Some(a),
    {
        Frac::lemma_checked_some(a.x, v.x);
        Frac::lemma_checked_some(a.y, v.y);
        Frac::lemma_checked_some(a.z, v.z);
    }

    /// What `checked` answers is well formed and has the value asked for.
    pub proof fn lemma_checked_value(v: Real3)
        ensures
            Pos3::checked(v) matches Some(a) ==> a.wf() && a@ == v,
    {
    }

    /// The position `(x, y, z)`.
    pub fn new(x: Frac, y: Frac, z: Frac) -> (r: Pos3)
        ensures
            r == (Pos3 { x, y, z }),
    {
        Pos3 { x, y, z }
    }

    /// The position `(val, val, val)`.
    pub fn splat(val: Frac) -> (r: Pos3)
        ensures
            r == (Pos3 { x: val, y: val, z: val }),
    {
        Pos3 { x: val, y: val, z: val }
    }

    /// The origin `(0, 0, 0)`.
    pub fn origin() -> (r: Pos3)
        ensures
            r@ == Real3::zero(),
            r.wf(),
    {
        Pos3 { x: Frac::zero(), y: Frac::zero(), z: Frac::zero() }
    }

    /// The position of three whole numbers.
    pub fn from_ints(x: i32, y: i32, z: i32) -> (r: Pos3)
        ensures
            r@ == (Real3 { x: x as real, y: y as real, z: z as real }),
            r.wf(),
    {
        Pos3 { x: Frac::from_int(x), y: Frac::from_int(y), z: Frac::from_int(z) }
    }

    /// The vector with the same coordinates.
    pub fn to_vec(self) -> (r: Vec3)
        ensures
            r == (Vec3 { x: self.x, y: self.y, z: self.z }),
    {
        Vec3 { x: self.x, y: self.y, z: self.z }
    }

    /// What [`Pos3::checked_sub`] answers: the displacement, where it can be stored.
    pub open spec fn spec_checked_sub(self, rhs: Pos3) -> Option<Vec3> {
        Vec3::checked(self@.sub(rhs@))
    }

    /// The displacement from `rhs` to `self`; `None` exactly when it cannot be
    /// stored.
    #[verifier::when_used_as_spec(spec_checked_sub)]
    pub fn checked_sub(self, rhs: Pos3) -> (r: Option<Vec3>)
        ensures
            r == self.spec_checked_sub(rhs),
    {
        Vec3::from_options(
            self.x.checked_sub(rhs.x),
            self.y.checked_sub(rhs.y),
            self.z.checked_sub(rhs.z),
        )
    }

    /// What [`Pos3::checked_add`] answers: the displaced position, where it can be
    /// stored.
    pub open spec fn spec_checked_add(self, rhs: Vec3) -> Option<Pos3> {
        Pos3::checked(self@.add(rhs@))
    }

    /// The position displaced by a vector; `None` exactly when it cannot be
    /// stored.
    #[verifier::when_used_as_spec(spec_checked_add)]
    pub fn checked_add(self, rhs: Vec3) -> (r: Option<Pos3>)
        ensures
            r == self.spec_checked_add(rhs),
    {
        Pos3::from_options(
            self.x.checked_add(rhs.x),
            self.y.checked_add(rhs.y),
            self.z.checked_add(rhs.z),
        )
    }

    /// What [`Pos3::checked_rem`] answers: each coordinate reduced into `[0, bound)`,
    /// where the result can be stored.
    pub open spec fn spec_checked_rem(self, bounds: Bounds3) -> Option<Pos3> {
        Pos3::checked(self@.wrap(bounds.x() as int, bounds.y() as int, bounds.z() as int))
    }

    /// The image of the position inside the supercell: each coordinate reduced
    /// into `[0, bound)`. `None` exactly when it cannot be stored.
    #[verifier::when_used_as_spec(spec_checked_rem)]
    pub fn checked_rem(self, bounds: Bounds3) -> (r: Option<Pos3>)
        ensures
            r == self.spec_checked_rem(bounds),
    {
        Pos3::from_options(
            self.x.checked_wrap(bounds.x()),
            self.y.checked_wrap(bounds.y()),
            self.z.checked_wrap(bounds.z()),
        )
    }
}

/// A 3x3 matrix with rational entries, `mRC` standing in row `R` and column
/// `C`.
#[derive(Debug, Clone, Copy, PartialEq, Eq, Structural)]
pub struct Mat3 {
    pub m00: Frac,
    pub m01: Frac,
    pub m02: Frac,
    pub m10: Frac,
    pub m11: Frac,
    pub m12: Frac,
    pub m20: Frac,
    pub m21: Frac,
    pub m22: Frac,
}

/// The affine map `x -> mat * x + translation`.
#[derive(Debug, Clone, Copy, PartialEq, Eq, Structural)]
pub struct Affine3 {
    pub mat: Mat3,
    pub translation: Vec3,
}

impl View for Mat3 {
    type V = RealMat3;

    open spec fn view(&self) -> RealMat3 {
        RealMat3 {
            m00: self.m00@,
            m01: self.m01@,
            m02: self.m02@,
            m10: self.m10@,
            m11: self.m11@,
            m12: self.m12@,
            m20: self.m20@,
            m21: self.m21@,
            m22: self.m22@,
        }
    }
}

impl View for Affine3 {
    type V = RealAffine3;

    open spec fn view(&self) -> RealAffine3 {
        RealAffine3 { mat: self.mat@, translation: self.translation@ }
    }
}

impl Mat3 {
    /// Every entry is a well-formed fraction; executable values always are.
    pub open spec fn wf(self) -> bool {
        &&& self.m00.wf() && self.m01.wf() && self.m02.wf()
        &&& self.m10.wf() && self.m11.wf() && self.m12.wf()
        &&& self.m20.wf() && self.m21.wf() && self.m22.wf()
    }

    /// The matrix of nine entries, where all nine are there.
    pub open spec fn spec_from_options(
        m00: Option<Frac>,
        m01: Option<Frac>,
        m02: Option<Frac>,
        m10: Option<Frac>,
        m11: Option<Frac>,
        m12: Option<Frac>,
        m20: Option<Frac>,
        m21: Option<Frac>,
        m22: Option<Frac>,
    ) -> Option<Mat3> {
        match (Vec3::from_options(m00, m01, m02), Vec3::from_options(m10, m11, m12), Vec3::from_options(
            m20,
            m21,
            m22,
        )) {
            (Some(r0), Some(r1), Some(r2)) => Some(
                Mat3 {
                    m00: r0.x,
                    m01: r0.y,
                    m02: r0.z,
                    m10: r1.x,
                    m11: r1.y,
                    m12: r1.z,
                    m20: r2.x,
                    m21: r2.y,
                    m22: r2.z,
                },
            ),
            _ => None,
        }
    }

    /// The matrix of nine entries, where all nine are there.
    #[verifier::when_used_as_spec(spec_from_options)]
    pub fn from_options(
        m00: Option<Frac>,
        m01: Option<Frac>,
        m02: Option<Frac>,
        m10: Option<Frac>,
        m11: Option<Frac>,
        m12: Option<Frac>,
        m20: Option<Frac>,
        m21: Option<Frac>,
        m22: Option<Frac>,
    ) -> (r: Option<Mat3>)
        ensures
            r == Mat3::spec_from_options(m00, m01, m02, m10, m11, m12, m20, m21, m22),
    {
        match (Vec3::from_options(m00, m01, m02), Vec3::from_options(m10, m11, m12), Vec3::from_options(
            m20,
            m21,
            m22,
        )) {
            (Some(r0), Some(r1), Some(r2)) => Some(
                Mat3 {
                    m00: r0.x,
                    m01: r0.y,
                    m02: r0.z,
                    m10: r1.x,
                    m11: r1.y,
                    m12: r1.z,
                    m20: r2.x,
                    m21: r2.y,
                    m22: r2.z,
                },
            ),
            _ => None,
        }
    }

    /// The matrix of value `m`, where all nine entries can be stored.
    pub open spec fn checked(m: RealMat3) -> Option<Mat3> {
        Mat3::from_options(
            Frac::checked(m.m00),
            Frac::checked(m.m01),
            Frac::checked(m.m02),
            Frac::checked(m.m10),
            Frac::checked(m.m11),
            Frac::checked(m.m12),
            Frac::checked(m.m20),
            Frac::checked(m.m21),
            Frac::checked(m.m22),
        )
    }

    /// A well-formed matrix is the checked matrix of its own value.
    pub proof fn lemma_checked_some(a: Mat3, m: RealMat3)
        requires
            a.wf(),
            a@ == m,
        ensures
            Mat3::checked(m) == Some(a),
    {
        Frac::lemma_checked_some(a.m00, m.m00);
        Frac::lemma_checked_some(a.m01, m.m01);
        Frac::lemma_checked_some(a.m02, m.m02);
        Frac::lemma_checked_some(a.m10, m.m10);
        Frac::lemma_checked_some(a.m11, m.m11);
        Frac::lemma_checked_some(a.m12, m.m12);
        Frac::lemma_checked_some(a.m20, m.m20);
        Frac::lemma_checked_some(a.m21, m.m21);
        Frac::lemma_checked_some(a.m22, m.m22);
    }

    /// What `checked` answers is well formed and has the value asked for.
    pub proof fn lemma_checked_value(m: RealMat3)
        ensures
            Mat3::checked(m) matches Some(a) ==> a.wf() && a@ == m,
    {
    }

    /// Matrices of equal value are equal.
    pub proof fn lemma_view_injective(a: Mat3, b: Mat3)
        requires
            a.wf(),
            b.wf(),
            a@ == b@,
        ensures
            a == b,
    {
        Frac::lemma_view_injective(a.m00, b.m00);
        Frac::lemma_view_injective(a.m01, b.m01);
        Frac::lemma_view_injective(a.m02, b.m02);
        Frac::lemma_view_injective(a.m10, b.m10);
        Frac::lemma_view_injective(a.m11, b.m11);
        Frac::lemma_view_injective(a.m12, b.m12);
        Frac::lemma_view_injective(a.m20, b.m20);
        Frac::lemma_view_injective(a.m21, b.m21);
        Frac::lemma_view_injective(a.m22, b.m22);
    }

    /// The matrix whose columns are `v1`, `v2` and `v3`.
    pub fn from_columns(v1: Vec3, v2: Vec3, v3: Vec3) -> (r: Mat3)
        ensures
            r@.col0() == v1@,
            r@.col1() == v2@,
            r@.col2() == v3@,
            r == (Mat3 {
                m00: v1.x,
                m01: v2.x,
                m02: v3.x,
                m10: v1.y,
                m11: v2.y,
                m12: v3.y,
                m20: v1.z,
                m21: v2.z,
                m22: v3.z,
            }),
    {
        Mat3 {
            m00: v1.x,
            m01: v2.x,
            m02: v3.x,
            m10: v1.y,
            m11: v2.y,
            m12: v3.y,
            m20: v1.z,
            m21: v2.z,
            m22: v3.z,
        }
    }

    /// The matrix of nine whole numbers, row by row.
    pub fn from_ints(e: [i32; 9]) -> (r: Mat3)
        ensures
            r.wf(),
            r@ == (RealMat3 {
                m00: e@[0] as real,
                m01: e@[1] as real,
                m02: e@[2] as real,
                m10: e@[3] as real,
                m11: e@[4] as real,
                m12: e@[5] as real,
                m20: e@[6] as real,
                m21: e@[7] as real,
                m22: e@[8] as real,
            }),
    {
        Mat3 {
            m00: Frac::from_int(e[0]),
            m01: Frac::from_int(e[1]),
            m02: Frac::from_int(e[2]),
            m10: Frac::from_int(e[3]),
            m11: Frac::from_int(e[4]),
            m12: Frac::from_int(e[5]),
            m20: Frac::from_int(e[6]),
            m21: Frac::from_int(e[7]),
            m22: Frac::from_int(e[8]),
        }
    }

    /// The identity matrix.
    pub fn identity() -> (r: Mat3)
        ensures
            r@ == RealMat3::identity(),
            r.wf(),
    {
        let i = Frac::one();
        let o = Frac::zero();
        Mat3 { m00: i, m01: o, m02: o, m10: o, m11: i, m12: o, m20: o, m21: o, m22: i }
    }

    /// The transposed matrix.
    pub fn transpose(&self) -> (r: Mat3)
        ensures
            r@ == self@.transpose(),
            r == (Mat3 {
                m00: self.m00,
                m01: self.m10,
                m02: self.m20,
                m10: self.m01,
                m11: self.m11,
                m12: self.m21,
                m20: self.m02,
                m21: self.m12,
                m22: self.m22,
            }),
    {
        Mat3 {
            m00: self.m00,
            m01: self.m10,
            m02: self.m20,
            m10: self.m01,
            m11: self.m11,
            m12: self.m21,
            m20: self.m02,
            m21: self.m12,
            m22: self.m22,
        }
    }

    /// What [`Mat3::determinant`] answers: the expansion along the first row,
    /// where every product, minor and partial sum on the way can be stored.
    pub open spec fn spec_determinant(&self) -> Option<Frac> {
        match (
            Frac::minor(self.m11, self.m22, self.m12, self.m21),
            Frac::minor(self.m10, self.m22, self.m12, self.m20),
            Frac::minor(self.m10, self.m21, self.m11, self.m20),
        ) {
            (Some(n0), Some(n1), Some(n2)) => match (
                self.m00.checked_mul(n0),
                self.m01.checked_mul(n1),
                self.m02.checked_mul(n2),
            ) {
                (Some(t0), Some(t1), Some(t2)) => match t0.checked_sub(t1) {
                    Some(u) => u.checked_add(t2),
                    None => None,
                },
                _ => None,
            },
            _ => None,
        }
    }

    /// The determinant; `None` when a step of its expansion cannot be stored.
    #[verifier::when_used_as_spec(spec_determinant)]
    pub fn determinant(&self) -> (r: Option<Frac>)
        ensures
            r == self.spec_determinant(),
            r matches Some(d) ==> d@ == self@.det(),
    {
        match (
            Frac::minor(self.m11, self.m22, self.m12, self.m21),
            Frac::minor(self.m10, self.m22, self.m12, self.m20),
            Frac::minor(self.m10, self.m21, self.m11, self.m20),
        ) {
            (Some(n0), Some(n1), Some(n2)) => match (
                self.m00.checked_mul(n0),
                self.m01.checked_mul(n1),
                self.m02.checked_mul(n2),
            ) {
                (Some(t0), Some(t1), Some(t2)) => match t0.checked_sub(t1) {
                    Some(u) => u.checked_add(t2),
                    None => None,
                },
                _ => None,
            },
            _ => None,
        }
    }

    /// What [`Mat3::cofactor`] answers: the nine signed minors, where each can
    /// be stored together with its two products.
    pub open spec fn spec_cofactor(&self) -> Option<Mat3> {
        Mat3::from_options(
            Frac::minor(self.m11, self.m22, self.m12, self.m21),
            Frac::minor(self.m12, self.m20, self.m10, self.m22),
            Frac::minor(self.m10, self.m21, self.m11, self.m20),
            Frac::minor(self.m21, self.m02, self.m22, self.m01),
            Frac::minor(self.m00, self.m22, self.m02, self.m20),
            Frac::minor(self.m01, self.m20, self.m00, self.m21),
            Frac::minor(self.m01, self.m12, self.m02, self.m11),
            Frac::minor(self.m02, self.m10, self.m00, self.m12),
            Frac::minor(self.m00, self.m11, self.m01, self.m10),
        )
    }

    /// The matrix of cofactors; `None` when a minor cannot be stored.
    #[verifier::when_used_as_spec(spec_cofactor)]
    pub fn cofactor(&self) -> (r: Option<Mat3>)
        ensures
            r == self.spec_cofactor(),
            r matches Some(c) ==> c@ == self@.cofactor(),
    {
        Mat3::from_options(
            Frac::minor(self.m11, self.m22, self.m12, self.m21),
            Frac::minor(self.m12, self.m20, self.m10, self.m22),
            Frac::minor(self.m10, self.m21, self.m11, self.m20),
            Frac::minor(self.m21, self.m02, self.m22, self.m01),
            Frac::minor(self.m00, self.m22, self.m02, self.m20),
            Frac::minor(self.m01, self.m20, self.m00, self.m21),
            Frac::minor(self.m01, self.m12, self.m02, self.m11),
            Frac::minor(self.m02, self.m10, self.m00, self.m12),
            Frac::minor(self.m00, self.m11, self.m01, self.m10),
        )
    }

    /// What [`Mat3::adjoint`] answers: the transposed matrix of cofactors.
    pub open spec fn spec_adjoint(&self) -> Option<Mat3> {
        match self.cofactor() {
            Some(c) => Some(
                Mat3 {
                    m00: c.m00,
                    m01: c.m10,
                    m02: c.m20,
                    m10: c.m01,
                    m11: c.m11,
                    m12: c.m21,
                    m20: c.m02,
                    m21: c.m12,
                    m22: c.m22,
                },
            ),
            None => None,
        }
    }

    /// The adjoint: the transposed matrix of cofactors; `None` when a minor
    /// cannot be stored.
    #[verifier::when_used_as_spec(spec_adjoint)]
    pub fn adjoint(&self) -> (r: Option<Mat3>)
        ensures
            r == self.spec_adjoint(),
            r matches Some(a) ==> a@ == self@.adjoint(),
    {
        match self.cofactor() {
            Some(c) => Some(c.transpose()),
            None => None,
        }
    }

    /// What [`Mat3::checked_scale`] answers: the scaled matrix, where it can be
    /// stored.
    pub open spec fn spec_checked_scale(self, k: Frac) -> Option<Mat3> {
        Mat3::checked(self@.scale(k@))
    }

    /// Every entry multiplied by `k`; `None` exactly when the result cannot be
    /// stored.
    #[verifier::when_used_as_spec(spec_checked_scale)]
    pub fn checked_scale(self, k: Frac) -> (r: Option<Mat3>)
        ensures
            r == self.spec_checked_scale(k),
    {
        Mat3::from_options(
            self.m00.checked_mul(k),
            self.m01.checked_mul(k),
            self.m02.checked_mul(k),
            self.m10.checked_mul(k),
            self.m11.checked_mul(k),
            self.m12.checked_mul(k),
            self.m20.checked_mul(k),
            self.m21.checked_mul(k),
            self.m22.checked_mul(k),
        )
    }

    /// What [`Mat3::inverse`] answers: the adjoint divided by the determinant,
    /// where the determinant is not zero and every step can be stored.
    pub open spec fn spec_inverse(&self) -> Option<Mat3> {
        match self.determinant() {
            Some(det) => match (Frac::checked(1real / det@), self.adjoint()) {
                (Some(k), Some(adj)) => if det@ == 0real {
                    None
                } else {
                    adj.checked_scale(k)
                },
                _ => None,
            },
            None => None,
        }
    }

    /// The inverse matrix. `None` when the determinant is zero, and when a
    /// step of the computation cannot be stored.
    #[verifier::when_used_as_spec(spec_inverse)]
    pub fn inverse(&self) -> (r: Option<Mat3>)
        ensures
            r == self.spec_inverse(),
            r matches Some(inv) ==> self@.det() != 0real && inv@ == self@.inverse(),
            self.determinant() matches Some(d) && d@ == 0real ==> r is None,
    {
        let det = match self.determinant() {
            Some(det) => det,
            None => { return None; },
        };
        if det.is_zero() {
            return None;
        }
        let k = match Frac::one().checked_div(det) {
            Some(k) => k,
            None => { return None; },
        };
        match self.adjoint() {
            Some(adj) => adj.checked_scale(k),
            None => None,
        }
    }

    /// What [`Mat3::is_invertible`] answers.
    pub open spec fn spec_is_invertible(&self) -> Option<bool> {
        match self.determinant() {
            Some(det) => Some(det@ != 0real),
            None => None,
        }
    }

    /// Whether the determinant is not zero; `None` when the determinant cannot
    /// be computed.
    #[verifier::when_used_as_spec(spec_is_invertible)]
    pub fn is_invertible(&self) -> (r: Option<bool>)
        ensures
            r == self.spec_is_invertible(),
            r matches Some(b) ==> (b <==> self@.det() != 0real),
    {
        match self.determinant() {
            Some(det) => Some(!det.is_zero()),
            None => None,
        }
    }

    /// What [`Mat3::checked_mul`] answers: the matrix of the nine dot products
    /// of a row of `self` with a column of `rhs`.
    pub open spec fn spec_checked_mul(self, rhs: Mat3) -> Option<Mat3> {
        Mat3::from_options(
            Frac::dot3(self.m00, rhs.m00, self.m01, rhs.m10, self.m02, rhs.m20),
            Frac::dot3(self.m00, rhs.m01, self.m01, rhs.m11, self.m02, rhs.m21),
            Frac::dot3(self.m00, rhs.m02, self.m01, rhs.m12, self.m02, rhs.m22),
            Frac::dot3(self.m10, rhs.m00, self.m11, rhs.m10, self.m12, rhs.m20),
            Frac::dot3(self.m10, rhs.m01, self.m11, rhs.m11, self.m12, rhs.m21),
            Frac::dot3(self.m10, rhs.m02, self.m11, rhs.m12, self.m12, rhs.m22),
            Frac::dot3(self.m20, rhs.m00, self.m21, rhs.m10, self.m22, rhs.m20),
            Frac::dot3(self.m20, rhs.m01, self.m21, rhs.m11, self.m22, rhs.m21),
            Frac::dot3(self.m20, rhs.m02, self.m21, rhs.m12, self.m22, rhs.m22),
        )
    }

    /// The matrix product `self * rhs`; `None` when a product or a partial sum
    /// cannot be stored.
    #[verifier::when_used_as_spec(spec_checked_mul)]
    pub fn checked_mul(self, rhs: Mat3) -> (r: Option<Mat3>)
        ensures
            r == self.spec_checked_mul(rhs),
            r matches Some(p) ==> p@ == self@.mul(rhs@),
    {
        Mat3::from_options(
            Frac::dot3(self.m00, rhs.m00, self.m01, rhs.m10, self.m02, rhs.m20),
            Frac::dot3(self.m00, rhs.m01, self.m01, rhs.m11, self.m02, rhs.m21),
            Frac::dot3(self.m00, rhs.m02, self.m01, rhs.m12, self.m02, rhs.m22),
            Frac::dot3(self.m10, rhs.m00, self.m11, rhs.m10, self.m12, rhs.m20),
            Frac::dot3(self.m10, rhs.m01, self.m11, rhs.m11, self.m12, rhs.m21),
            Frac::dot3(self.m10, rhs.m02, self.m11, rhs.m12, self.m12, rhs.m22),
            Frac::dot3(self.m20, rhs.m00, self.m21, rhs.m10, self.m22, rhs.m20),
            Frac::dot3(self.m20, rhs.m01, self.m21, rhs.m11, self.m22, rhs.m21),
            Frac::dot3(self.m20, rhs.m02, self.m21, rhs.m12, self.m22, rhs.m22),
        )
    }

    /// What [`Mat3::checked_mul_vec`] answers: the three dot products of a row
    /// with the vector.
    pub open spec fn spec_checked_mul_vec(self, v: Vec3) -> Option<Vec3> {
        Vec3::from_options(
            Frac::dot3(self.m00, v.x, self.m01, v.y, self.m02, v.z),
            Frac::dot3(self.m10, v.x, self.m11, v.y, self.m12, v.z),
            Frac::dot3(self.m20, v.x, self.m21, v.y, self.m22, v.z),
        )
    }

    /// The matrix applied to a vector; `None` when a product or a partial sum
    /// cannot be stored.
    #[verifier::when_used_as_spec(spec_checked_mul_vec)]
    pub fn checked_mul_vec(self, v: Vec3) -> (r: Option<Vec3>)
        ensures
            r == self.spec_checked_mul_vec(v),
            r matches Some(p) ==> p@ == self@.apply(v@),
    {
        Vec3::from_options(
            Frac::dot3(self.m00, v.x, self.m01, v.y, self.m02, v.z),
            Frac::dot3(self.m10, v.x, self.m11, v.y, self.m12, v.z),
            Frac::dot3(self.m20, v.x, self.m21, v.y, self.m22, v.z),
        )
    }

    /// What [`Mat3::checked_mul_pos`] answers: the three dot products of a row
    /// with the position.
    pub open spec fn spec_checked_mul_pos(self, p: Pos3) -> Option<Pos3> {
        Pos3::from_options(
            Frac::dot3(self.m00, p.x, self.m01, p.y, self.m02, p.z),
            Frac::dot3(self.m10, p.x, self.m11, p.y, self.m12, p.z),
            Frac::dot3(self.m20, p.x, self.m21, p.y, self.m22, p.z),
        )
    }

    /// The matrix applied to a position; `None` when a product or a partial
    /// sum cannot be stored.
    #[verifier::when_used_as_spec(spec_checked_mul_pos)]
    pub fn checked_mul_pos(self, p: Pos3) -> (r: Option<Pos3>)
        ensures
            r == self.spec_checked_mul_pos(p),
            r matches Some(q) ==> q@ == self@.apply(p@),
    {
        Pos3::from_options(
            Frac::dot3(self.m00, p.x, self.m01, p.y, self.m02, p.z),
            Frac::dot3(self.m10, p.x, self.m11, p.y, self.m12, p.z),
            Frac::dot3(self.m20, p.x, self.m21, p.y, self.m22, p.z),
        )
    }

    /// What [`Mat3::is_orthogonal`] answers.
    pub open spec fn spec_is_orthogonal(&self) -> Option<bool> {
        match self.checked_mul(
            Mat3 {
                m00: self.m00,
                m01: self.m10,
                m02: self.m20,
                m10: self.m01,
                m11: self.m11,
                m12: self.m21,
                m20: self.m02,
                m21: self.m12,
                m22: self.m22,
            },
        ) {
            Some(p) => Some(p@ == RealMat3::identity()),
            None => None,
        }
    }

    /// Whether the matrix times its transpose is the identity; `None` when
    /// that product cannot be stored.
    #[verifier::when_used_as_spec(spec_is_orthogonal)]
    pub fn is_orthogonal(&self) -> (r: Option<bool>)
        ensures
            r == self.spec_is_orthogonal(),
            r matches Some(b) ==> (b <==> self@.mul(self@.transpose()) == RealMat3::identity()),
    {
        match self.checked_mul(self.transpose()) {
            Some(p) => {
                let id = Mat3::identity();
                proof {
                    use_type_invariant(p.m00);
                    use_type_invariant(p.m01);
                    use_type_invariant(p.m02);
                    use_type_invariant(p.m10);
                    use_type_invariant(p.m11);
                    use_type_invariant(p.m12);
                    use_type_invariant(p.m20);
                    use_type_invariant(p.m21);
                    use_type_invariant(p.m22);
                    if p@ == id@ {
                        Mat3::lemma_view_injective(p, id);
                    }
                }
                Some(p == id)
            },
            None => None,
        }
    }
}

impl Affine3 {
    /// Every entry and coordinate is a well-formed fraction; executable values
    /// always are.
    pub open spec fn wf(self) -> bool {
        self.mat.wf() && self.translation.wf()
    }

    /// The map `x -> mat * x + translation`.
    pub fn new(mat: Mat3, translation: Vec3) -> (r: Affine3)
        ensures
            r == (Affine3 { mat, translation }),
    {
        Affine3 { mat, translation }
    }

    /// The linear map `x -> mat * x`.
    pub fn from_mat(mat: Mat3) -> (r: Affine3)
        ensures
            r.mat == mat,
            r.translation@ == Real3::zero(),
            r.translation.wf(),
    {
        Affine3 { mat, translation: Vec3::zero() }
    }

    /// The translation `x -> x + translation`.
    pub fn from_translation(translation: Vec3) -> (r: Affine3)
        ensures
            r.translation == translation,
            r.mat@ == RealMat3::identity(),
            r.mat.wf(),
    {
        Affine3 { mat: Mat3::identity(), translation }
    }

    /// The map that leaves everything where it is.
    pub fn identity() -> (r: Affine3)
        ensures
            r@ == RealAffine3::identity(),
            r.wf(),
    {
        Affine3 { mat: Mat3::identity(), translation: Vec3::zero() }
    }

    /// The linear part.
    pub fn mat(&self) -> (r: Mat3)
        ensures
            r == self.mat,
    {
        self.mat
    }

    /// The translation part.
    pub fn translation(&self) -> (r: Vec3)
        ensures
            r == self.translation,
    {
        self.translation
    }

    /// What [`Affine3::mat_determinant`] answers.
    pub open spec fn spec_mat_determinant(&self) -> Option<Frac> {
        self.mat.determinant()
    }

    /// The determinant of the linear part; `None` when a step of its expansion
    /// cannot be stored.
    #[verifier::when_used_as_spec(spec_mat_determinant)]
    pub fn mat_determinant(&self) -> (r: Option<Frac>)
        ensures
            r == self.spec_mat_determinant(),
            r matches Some(d) ==> d@ == self@.mat.det(),
    {
        self.mat.determinant()
    }

    /// What [`Affine3::is_invertible`] answers.
    pub open spec fn spec_is_invertible(&self) -> Option<bool> {
        self.mat.is_invertible()
    }

    /// Whether the determinant of the linear part is not zero; `None` when the
    /// determinant cannot be computed.
    #[verifier::when_used_as_spec(spec_is_invertible)]
    pub fn is_invertible(&self) -> (r: Option<bool>)
        ensures
            r == self.spec_is_invertible(),
            r matches Some(b) ==> (b <==> self@.mat.det() != 0real),
    {
        self.mat.is_invertible()
    }

    /// What [`Affine3::inverse`] answers: the inverse linear part, with the
    /// opposite of its image of the translation.
    pub open spec fn spec_inverse(&self) -> Option<Affine3> {
        match self.mat.inverse() {
            Some(inv) => match inv.checked_mul_vec(self.translation) {
                Some(t) => match t.checked_neg() {
                    Some(translation) => Some(Affine3 { mat: inv, translation }),
                    None => None,
                },
                None => None,
            },
            None => None,
        }
    }

    /// The inverse map. `None` when the determinant of the linear part is
    /// zero, and when a step of the computation cannot be stored.
    #[verifier::when_used_as_spec(spec_inverse)]
    pub fn inverse(&self) -> (r: Option<Affine3>)
        ensures
            r == self.spec_inverse(),
            r matches Some(inv) ==> self@.mat.det() != 0real && inv@ == self@.inverse(),
            self.mat_determinant() matches Some(d) && d@ == 0real ==> r is None,
    {
        match self.mat.inverse() {
            Some(inv) => match inv.checked_mul_vec(self.translation) {
                Some(t) => match t.checked_neg() {
                    Some(translation) => Some(Affine3 { mat: inv, translation }),
                    None => None,
                },
                None => None,
            },
            None => None,
        }
    }

    /// What [`Affine3::checked_mul`] answers: the product of the linear parts,
    /// with `self.mat * rhs.translation + self.translation`.
    pub open spec fn spec_checked_mul(self, rhs: Affine3) -> Option<Affine3> {
        match (self.mat.checked_mul(rhs.mat), self.mat.checked_mul_vec(rhs.translation)) {
            (Some(mat), Some(t)) => match t.checked_add(self.translation) {
                Some(translation) => Some(Affine3 { mat, translation }),
                None => None,
            },
            _ => None,
        }
    }

    /// The composition `x -> self(rhs(x))`; `None` when a step of the
    /// computation cannot be stored.
    #[verifier::when_used_as_spec(spec_checked_mul)]
    pub fn checked_mul(self, rhs: Affine3) -> (r: Option<Affine3>)
        ensures
            r == self.spec_checked_mul(rhs),
            r matches Some(p) ==> p@ == self@.compose(rhs@),
    {
        match (self.mat.checked_mul(rhs.mat), self.mat.checked_mul_vec(rhs.translation)) {
            (Some(mat), Some(t)) => match t.checked_add(self.translation) {
                Some(translation) => Some(Affine3 { mat, translation }),
                None => None,
            },
            _ => None,
        }
    }

    /// What [`Affine3::checked_mul_vec`] answers.
    pub open spec fn spec_checked_mul_vec(self, v: Vec3) -> Option<Vec3> {
        self.mat.checked_mul_vec(v)
    }

    /// The image of a displacement, which the translation does not move;
    /// `None` when a product or a partial sum cannot be stored.
    #[verifier::when_used_as_spec(spec_checked_mul_vec)]
    pub fn checked_mul_vec(self, v: Vec3) -> (r: Option<Vec3>)
        ensures
            r == self.spec_checked_mul_vec(v),
            r matches Some(p) ==> p@ == self@.apply_vec(v@),
    {
        self.mat.checked_mul_vec(v)
    }

    /// What [`Affine3::checked_mul_pos`] answers.
    pub open spec fn spec_checked_mul_pos(self, p: Pos3) -> Option<Pos3> {
        match self.mat.checked_mul_pos(p) {
            Some(q) => q.checked_add(self.translation),
            None => None,
        }
    }

    /// The image of a position; `None` when a step of the computation cannot
    /// be stored.
    #[verifier::when_used_as_spec(spec_checked_mul_pos)]
    pub fn checked_mul_pos(self, p: Pos3) -> (r: Option<Pos3>)
        ensures
            r == self.spec_checked_mul_pos(p),
            r matches Some(q) ==> q@ == self@.apply_pos(p@),
    {
        match self.mat.checked_mul_pos(p) {
            Some(q) => q.checked_add(self.translation),
            None => None,
        }
    }

    /// What [`Affine3::checked_rem`] answers: the same map with its
    /// translation reduced as a vector.
    pub open spec fn spec_checked_rem(self, bounds: Bounds3) -> Option<Affine3> {
        match self.translation.checked_rem(bounds) {
            Some(translation) => Some(Affine3 { mat: self.mat, translation }),
            None => None,
        }
    }

    /// The map modulo the translations of the supercell: its translation is
    /// reduced into `(-bound/2, bound/2]`, its linear part is kept. `None`
    /// exactly when the reduced translation cannot be stored.
    #[verifier::when_used_as_spec(spec_checked_rem)]
    pub fn checked_rem(self, bounds: Bounds3) -> (r: Option<Affine3>)
        ensures
            r == self.spec_checked_rem(bounds),
            r matches Some(a) ==> a@ == self@.wrap_centered(
                bounds.x() as int,
                bounds.y() as int,
                bounds.z() as int,
            ),
    {
        match self.translation.checked_rem(bounds) {
            Some(translation) => Some(Affine3 { mat: self.mat, translation }),
            None => None,
        }
    }
}

impl Vec3 {
    /// Brings to the proof that the coordinates of a vector held by
    /// executable code are well formed.
    pub fn proved_wf(&self)
        ensures
            self.wf(),
    {
        proof {
            use_type_invariant(self.x);
            use_type_invariant(self.y);
            use_type_invariant(self.z);
        }
    }
}

impl Pos3 {
    /// Brings to the proof that the coordinates of a position held by
    /// executable code are well formed.
    pub fn proved_wf(&self)
        ensures
            self.wf(),
    {
        proof {
            use_type_invariant(self.x);
            use_type_invariant(self.y);
            use_type_invariant(self.z);
        }
    }
}

impl Mat3 {
    /// Brings to the proof that the entries of a matrix held by executable
    /// code are well formed.
    pub fn proved_wf(&self)
        ensures
            self.wf(),
    {
        proof {
            use_type_invariant(self.m00);
            use_type_invariant(self.m01);
            use_type_invariant(self.m02);
            use_type_invariant(self.m10);
            use_type_invariant(self.m11);
            use_type_invariant(self.m12);
            use_type_invariant(self.m20);
            use_type_invariant(self.m21);
            use_type_invariant(self.m22);
        }
    }
}

impl Affine3 {
    /// Brings to the proof that the entries of a map held by executable code
    /// are well formed.
    pub fn proved_wf(&self)
        ensures
            self.wf(),
    {
        self.mat.proved_wf();
        self.translation.proved_wf();
    }
}

} // verus!
