//! Symmetry operations and the groups they form.
//!
//! An [`Isometry`] is an affine map whose linear part has determinant `+1` or
//! `-1`. An [`IsometryGroup`] holds a space group by one representative for
//! each class of operations that differ by a lattice translation: the
//! representative whose translation lies in `(-1/2, 1/2]` along each axis.
use vstd::prelude::*;
use crate::affine_space::{Affine3, Bounds3, Mat3, Pos3, Vec3};
use crate::closure::{
    close, dedup, first_occurrences, is_closure, is_group_list, is_valid, is_valid_group, contains,
    GroupElement, MAX_PASSES,
};
use crate::error::Error;
pub use crate::expansion::IsometryIter;
use crate::reals::{lemma_wrap_centered_fixed, RealAffine3, RealMat3};

verus! {

/// `d` is `+1` or `-1`.
pub open spec fn is_unit(d: real) -> bool {
    d == 1real || d == -1real
}

/// The product of two units is a unit, and so is the inverse of a unit.
pub proof fn lemma_units(a: real, b: real)
    requires
        is_unit(a),
        is_unit(b),
    ensures
        is_unit(a * b),
        is_unit(1real / a),
{
    assert(is_unit(a * b) && is_unit(1real / a)) by (nonlinear_arith)
        requires
            is_unit(a),
            is_unit(b),
    ;
}

/// An element of a point group: a matrix with determinant `+1` or `-1`.
#[derive(Debug, Clone, Copy, PartialEq, Eq, Structural)]
pub struct PointGroupElement {
    mat: Mat3,
}

/// A crystallographic symmetry operation: an affine map whose linear part has
/// determinant `+1` or `-1`.
#[derive(Debug, Clone, Copy, PartialEq, Eq, Structural)]
pub struct Isometry {
    op: Affine3,
}

impl View for PointGroupElement {
    type V = RealMat3;

    open spec fn view(&self) -> RealMat3 {
        self.spec_mat()@
    }
}

impl View for Isometry {
    type V = RealAffine3;

    open spec fn view(&self) -> RealAffine3 {
        self.spec_affine()@
    }
}

impl PointGroupElement {
    /// The matrix of the element.
    pub closed spec fn spec_mat(&self) -> Mat3 {
        self.mat
    }

    /// The element with the matrix `mat`.
    pub closed spec fn of(mat: Mat3) -> PointGroupElement {
        PointGroupElement { mat }
    }

    /// `of` and `mat` undo each other.
    pub proof fn lemma_of(mat: Mat3, e: PointGroupElement)
        ensures
            PointGroupElement::of(mat).spec_mat() == mat,
            PointGroupElement::of(e.spec_mat()) == e,
    {
    }

    /// The entries are well formed and the determinant is `+1` or `-1`. Every
    /// value that executable code holds satisfies this.
    pub open spec fn wf(self) -> bool {
        self.spec_mat().wf() && is_unit(self@.det())
    }

    #[verifier::type_invariant]
    pub(crate) open spec fn inv(self) -> bool {
        self.wf()
    }

    /// What [`PointGroupElement::new`] answers.
    pub open spec fn spec_new(mat: Mat3) -> Result<PointGroupElement, Error> {
        match mat.determinant() {
            None => Err(Error::Overflow),
            Some(d) => if is_unit(d@) {
                Ok(PointGroupElement::of(mat))
            } else {
                Err(Error::InvalidPointGroupElement(mat))
            },
        }
    }

    /// The element with the matrix `mat`. It is refused with
    /// [`Error::InvalidPointGroupElement`] when the determinant is not `+1` or
    /// `-1`, and with [`Error::Overflow`] when the determinant cannot be
    /// computed.
    #[verifier::when_used_as_spec(spec_new)]
    pub fn new(mat: Mat3) -> (r: Result<PointGroupElement, Error>)
        ensures
            r == PointGroupElement::spec_new(mat),
            r matches Ok(e) ==> e.mat() == mat && is_unit(mat@.det()),
    {
        match mat.determinant() {
            None => Err(Error::Overflow),
            Some(d) => if d.is_unit() {
                mat.proved_wf();
                Ok(PointGroupElement { mat })
            } else {
                Err(Error::InvalidPointGroupElement(mat))
            },
        }
    }

    /// The matrix of the element.
    #[verifier::when_used_as_spec(spec_mat)]
    pub fn mat(&self) -> (r: Mat3)
        ensures
            r == self.spec_mat(),
            self.wf(),
    {
        proof {
            use_type_invariant(self);
        }
        self.mat
    }

    /// What [`PointGroupElement::invert`] answers.
    pub open spec fn spec_invert(&self) -> Option<PointGroupElement> {
        match self.mat().inverse() {
            Some(inv) => Some(PointGroupElement::of(inv)),
            None => None,
        }
    }

    /// The inverse element; `None` when a step of the computation cannot be
    /// stored.
    #[verifier::when_used_as_spec(spec_invert)]
    pub fn invert(&self) -> (r: Option<PointGroupElement>)
        ensures
            r == self.spec_invert(),
            r matches Some(e) ==> e@ == self@.inverse(),
    {
        proof {
            use_type_invariant(self);
        }
        match self.mat.inverse() {
            Some(inv) => {
                inv.proved_wf();
                proof {
                    self@.lemma_det_inverse();
                    lemma_units(self@.det(), self@.det());
                }
                Some(PointGroupElement { mat: inv })
            },
            None => None,
        }
    }

    /// What [`PointGroupElement::checked_mul`] answers.
    pub open spec fn spec_checked_mul(self, rhs: PointGroupElement) -> Option<PointGroupElement> {
        match self.mat().checked_mul(rhs.mat()) {
            Some(p) => Some(PointGroupElement::of(p)),
            None => None,
        }
    }

    /// The product `self * rhs`; `None` when a product or a partial sum cannot
    /// be stored.
    #[verifier::when_used_as_spec(spec_checked_mul)]
    pub fn checked_mul(self, rhs: PointGroupElement) -> (r: Option<PointGroupElement>)
        ensures
            r == self.spec_checked_mul(rhs),
            r matches Some(e) ==> e@ == self@.mul(rhs@),
    {
        proof {
            use_type_invariant(self);
            use_type_invariant(rhs);
        }
        match self.mat.checked_mul(rhs.mat) {
            Some(p) => {
                p.proved_wf();
                proof {
                    self@.lemma_det_mul(rhs@);
                    lemma_units(self@.det(), rhs@.det());
                }
                Some(PointGroupElement { mat: p })
            },
            None => None,
        }
    }

    /// The image of a displacement; `None` when a product or a partial sum
    /// cannot be stored.
    pub fn checked_mul_vec(self, v: Vec3) -> (r: Option<Vec3>)
        ensures
            r == self.mat().checked_mul_vec(v),
            r matches Some(p) ==> p@ == self@.apply(v@),
    {
        self.mat.checked_mul_vec(v)
    }

    /// The image of a position; `None` when a product or a partial sum cannot
    /// be stored.
    pub fn checked_mul_pos(self, p: Pos3) -> (r: Option<Pos3>)
        ensures
            r == self.mat().checked_mul_pos(p),
            r matches Some(q) ==> q@ == self@.apply(p@),
    {
        self.mat.checked_mul_pos(p)
    }
}

impl Isometry {
    /// The affine map of the operation.
    pub closed spec fn spec_affine(&self) -> Affine3 {
        self.op
    }

    /// The operation with the affine map `op`.
    pub closed spec fn of(op: Affine3) -> Isometry {
        Isometry { op }
    }

    /// `of` and `affine` undo each other.
    pub proof fn lemma_of(op: Affine3, e: Isometry)
        ensures
            Isometry::of(op).spec_affine() == op,
            Isometry::of(e.spec_affine()) == e,
    {
    }

    /// The entries are well formed and the determinant of the linear part is
    /// `+1` or `-1`. Every value that executable code holds satisfies this.
    pub open spec fn wf(self) -> bool {
        self.spec_affine().wf() && is_unit(self@.mat.det())
    }

    #[verifier::type_invariant]
    pub(crate) open spec fn inv(self) -> bool {
        self.wf()
    }

    /// What [`Isometry::new`] answers.
    pub open spec fn spec_new(operation: Affine3) -> Result<Isometry, Error> {
        match operation.mat_determinant() {
            None => Err(Error::Overflow),
            Some(d) => if is_unit(d@) {
                Ok(Isometry::of(operation))
            } else {
                Err(Error::InvalidIsometry(operation))
            },
        }
    }

    /// The symmetry operation with the affine map `operation`. It is refused
    /// with [`Error::InvalidIsometry`] when the determinant of the linear part
    /// is not `+1` or `-1`, and with [`Error::Overflow`] when the determinant
    /// cannot be computed.
    #[verifier::when_used_as_spec(spec_new)]
    pub fn new(operation: Affine3) -> (r: Result<Isometry, Error>)
        ensures
            r == Isometry::spec_new(operation),
            r matches Ok(e) ==> e.affine() == operation && is_unit(operation@.mat.det()),
    {
        match operation.mat_determinant() {
            None => Err(Error::Overflow),
            Some(d) => if d.is_unit() {
                operation.proved_wf();
                Ok(Isometry { op: operation })
            } else {
                Err(Error::InvalidIsometry(operation))
            },
        }
    }

    /// The linear symmetry operation with the matrix `mat`; refused as
    /// [`Isometry::new`] refuses.
    pub fn from_mat(mat: Mat3) -> (r: Result<Isometry, Error>)
        ensures
            r matches Ok(e) ==> e.affine().mat == mat && e@.translation == crate::reals::Real3::zero()
                && is_unit(mat@.det()),
            r is Ok <==> (mat.determinant() matches Some(d) && is_unit(d@)),
            r matches Err(e) ==> (if mat.determinant() is None {
                e == Error::Overflow
            } else {
                e matches Error::InvalidIsometry(a) && a.mat == mat
            }),
    {
        Isometry::new(Affine3::from_mat(mat))
    }

    /// The translation by `translation`.
    pub fn from_translation(translation: Vec3) -> (r: Isometry)
        ensures
            r.affine().translation == translation,
            r.affine().mat.wf(),
            r@.mat == RealMat3::identity(),
    {
        let op = Affine3::from_translation(translation);
        op.proved_wf();
        proof {
            RealMat3::lemma_det_identity();
        }
        Isometry { op }
    }

    /// The affine map of the operation.
    #[verifier::when_used_as_spec(spec_affine)]
    pub fn affine(&self) -> (r: Affine3)
        ensures
            r == self.spec_affine(),
            self.wf(),
    {
        proof {
            use_type_invariant(self);
        }
        self.op
    }

    /// The linear part of the operation as a point group element.
    pub fn reduce_to_point_group_element(&self) -> (r: PointGroupElement)
        ensures
            r.mat() == self.affine().mat,
    {
        proof {
            use_type_invariant(self);
        }
        PointGroupElement { mat: self.op.mat }
    }

    /// What [`Isometry::invert`] answers.
    pub open spec fn spec_invert(&self) -> Option<Isometry> {
        match self.affine().inverse() {
            Some(inv) => Some(Isometry::of(inv)),
            None => None,
        }
    }

    /// The inverse operation; `None` when a step of the computation cannot be
    /// stored.
    #[verifier::when_used_as_spec(spec_invert)]
    pub fn invert(&self) -> (r: Option<Isometry>)
        ensures
            r == self.spec_invert(),
            r matches Some(e) ==> e@ == self@.inverse(),
    {
        proof {
            use_type_invariant(self);
        }
        match self.op.inverse() {
            Some(inv) => {
                inv.proved_wf();
                proof {
                    self@.mat.lemma_det_inverse();
                    lemma_units(self@.mat.det(), self@.mat.det());
                }
                Some(Isometry { op: inv })
            },
            None => None,
        }
    }

    /// What [`Isometry::checked_mul`] answers.
    pub open spec fn spec_checked_mul(self, rhs: Isometry) -> Option<Isometry> {
        match self.affine().checked_mul(rhs.affine()) {
            Some(p) => Some(Isometry::of(p)),
            None => None,
        }
    }

    /// The operation `self` after `rhs`; `None` when a step of the computation
    /// cannot be stored.
    #[verifier::when_used_as_spec(spec_checked_mul)]
    pub fn checked_mul(self, rhs: Isometry) -> (r: Option<Isometry>)
        ensures
            r == self.spec_checked_mul(rhs),
            r matches Some(e) ==> e@ == self@.compose(rhs@),
    {
        proof {
            use_type_invariant(self);
            use_type_invariant(rhs);
        }
        match self.op.checked_mul(rhs.op) {
            Some(p) => {
                p.proved_wf();
                proof {
                    self@.mat.lemma_det_mul(rhs@.mat);
                    lemma_units(self@.mat.det(), rhs@.mat.det());
                }
                Some(Isometry { op: p })
            },
            None => None,
        }
    }

    /// The image of a displacement, which the translation does not move;
    /// `None` when a product or a partial sum cannot be stored.
    pub fn checked_mul_vec(self, v: Vec3) -> (r: Option<Vec3>)
        ensures
            r == self.affine().checked_mul_vec(v),
            r matches Some(p) ==> p@ == self@.apply_vec(v@),
    {
        self.op.checked_mul_vec(v)
    }

    /// The image of a position; `None` when a step of the computation cannot
    /// be stored.
    pub fn checked_mul_pos(self, p: Pos3) -> (r: Option<Pos3>)
        ensures
            r == self.affine().checked_mul_pos(p),
            r matches Some(q) ==> q@ == self@.apply_pos(p@),
    {
        self.op.checked_mul_pos(p)
    }

    /// What [`Isometry::checked_rem`] answers.
    pub open spec fn spec_checked_rem(self, bounds: Bounds3) -> Option<Isometry> {
        match self.affine().checked_rem(bounds) {
            Some(a) => Some(Isometry::of(a)),
            None => None,
        }
    }

    /// The operation modulo the translations of the supercell: its
    /// translation is reduced into `(-bound/2, bound/2]`. `None` exactly when
    /// the reduced translation cannot be stored.
    #[verifier::when_used_as_spec(spec_checked_rem)]
    pub fn checked_rem(self, bounds: Bounds3) -> (r: Option<Isometry>)
        ensures
            r == self.spec_checked_rem(bounds),
            r matches Some(e) ==> e@ == self@.wrap_centered(
                bounds.x() as int,
                bounds.y() as int,
                bounds.z() as int,
            ) && bounds.contains_vec(e.affine().translation),
    {
        proof {
            use_type_invariant(self);
            use_type_invariant(bounds);
            self.op.translation.law_rem_range(bounds);
        }
        match self.op.checked_rem(bounds) {
            Some(a) => {
                a.proved_wf();
                Some(Isometry { op: a })
            },
            None => None,
        }
    }

    /// What [`Isometry::checked_translate`] answers.
    pub open spec fn spec_checked_translate(self, shift: Vec3) -> Option<Isometry> {
        match self.affine().translation.checked_add(shift) {
            Some(translation) => Some(
                Isometry::of(Affine3 { mat: self.affine().mat, translation }),
            ),
            None => None,
        }
    }

    /// The operation followed by the translation by `shift`; `None` exactly
    /// when the new translation cannot be stored.
    #[verifier::when_used_as_spec(spec_checked_translate)]
    pub fn checked_translate(self, shift: Vec3) -> (r: Option<Isometry>)
        ensures
            r == self.spec_checked_translate(shift),
            r matches Some(e) ==> e@.mat == self@.mat && e@.translation == self@.translation.add(
                shift@,
            ),
    {
        proof {
            use_type_invariant(self);
        }
        match self.op.translation.checked_add(shift) {
            Some(translation) => {
                let op = Affine3 { mat: self.op.mat, translation };
                op.proved_wf();
                Some(Isometry { op })
            },
            None => None,
        }
    }
}

impl GroupElement for PointGroupElement {
    open spec fn canonical(self) -> bool {
        true
    }

    open spec fn spec_compose(self, rhs: PointGroupElement) -> Option<PointGroupElement> {
        self.checked_mul(rhs)
    }

    open spec fn spec_inverse(self) -> Option<PointGroupElement> {
        self.invert()
    }

    fn compose(self, rhs: PointGroupElement) -> (r: Option<PointGroupElement>) {
        self.checked_mul(rhs)
    }

    fn inverse(self) -> (r: Option<PointGroupElement>) {
        self.invert()
    }

    fn is_canonical(self) -> (r: bool) {
        true
    }

    fn same(self, other: PointGroupElement) -> (r: bool) {
        self == other
    }
}

impl GroupElement for Isometry {
    /// The translation lies in `(-1/2, 1/2]` along each axis.
    open spec fn canonical(self) -> bool {
        Bounds3::unit().contains_vec(self.affine().translation)
    }

    /// The composition, reduced modulo the lattice translations.
    open spec fn spec_compose(self, rhs: Isometry) -> Option<Isometry> {
        match self.checked_mul(rhs) {
            Some(p) => p.checked_rem(Bounds3::unit()),
            None => None,
        }
    }

    /// The inverse, reduced modulo the lattice translations.
    open spec fn spec_inverse(self) -> Option<Isometry> {
        match self.invert() {
            Some(p) => p.checked_rem(Bounds3::unit()),
            None => None,
        }
    }

    fn compose(self, rhs: Isometry) -> (r: Option<Isometry>) {
        match self.checked_mul(rhs) {
            Some(p) => p.checked_rem(Bounds3::unit()),
            None => None,
        }
    }

    fn inverse(self) -> (r: Option<Isometry>) {
        match self.invert() {
            Some(p) => p.checked_rem(Bounds3::unit()),
            None => None,
        }
    }

    fn is_canonical(self) -> (r: bool) {
        Bounds3::unit().contains_vec(self.affine().translation)
    }

    fn same(self, other: Isometry) -> (r: bool) {
        self == other
    }
}

impl Isometry {
    /// An operation in canonical form is its own reduction modulo the lattice
    /// translations.
    pub proof fn lemma_canonical_fixed(self)
        requires
            self.wf(),
            self.canonical(),
        ensures
            self.checked_rem(Bounds3::unit()) == Some(self),
    {
        let t = self.affine().translation;
        Bounds3::lemma_unit();
        lemma_wrap_centered_fixed(t.x@, 1);
        lemma_wrap_centered_fixed(t.y@, 1);
        lemma_wrap_centered_fixed(t.z@, 1);
        Vec3::lemma_checked_some(t, t@);
    }
}

/// A point group: a list of distinct matrices with determinant `+1` or `-1`
/// that is closed under multiplication.
#[derive(Debug)]
pub struct PointGroup {
    symmetries: Vec<PointGroupElement>,
}

/// A space group modulo its lattice translations: a list of distinct
/// symmetry operations in canonical form that is closed under composition
/// followed by reduction.
#[derive(Debug)]
pub struct IsometryGroup {
    symmetries: Vec<Isometry>,
}

impl View for PointGroup {
    type V = Seq<PointGroupElement>;

    closed spec fn view(&self) -> Seq<PointGroupElement> {
        self.symmetries@
    }
}

impl View for IsometryGroup {
    type V = Seq<Isometry>;

    closed spec fn view(&self) -> Seq<Isometry> {
        self.symmetries@
    }
}

/// Every generator can be reduced modulo the lattice translations.
pub open spec fn reducible(generators: Seq<Isometry>) -> bool {
    forall|i: int|
        0 <= i < generators.len() ==> (#[trigger] generators[i]).checked_rem(Bounds3::unit())
            is Some
}

/// The generators, each reduced modulo the lattice translations.
pub open spec fn reduced(generators: Seq<Isometry>) -> Seq<Isometry> {
    Seq::new(generators.len(), |i: int| generators[i].checked_rem(Bounds3::unit()).unwrap())
}

/// `out` is the group that the generators generate modulo the lattice
/// translations: the closure of the reduced generators, with what
/// [`is_closure`] tells of it, or [`Error::Overflow`] if a generator cannot be
/// reduced. Generators that are already a group come back unchanged.
pub open spec fn is_group_of(generators: Seq<Isometry>, out: Result<Seq<Isometry>, Error>) -> bool {
    &&& if reducible(generators) {
        is_closure(reduced(generators), out)
    } else {
        out == Err::<Seq<Isometry>, Error>(Error::Overflow)
    }
    &&& is_group_list(generators) ==> out == Ok::<Seq<Isometry>, Error>(generators)
}

/// Whether a list of group elements is a group depends only on which
/// elements it holds.
pub proof fn lemma_valid_same_set<T: GroupElement>(s: Seq<T>, t: Seq<T>)
    requires
        s.to_set() == t.to_set(),
        is_valid_group(s),
    ensures
        is_valid_group(t),
{
    assert forall|i: int| 0 <= i < t.len() implies (#[trigger] t[i]).canonical() && (
    t[i].spec_inverse() matches Some(e) && t.contains(e)) by {
        assert(t.to_set().contains(t[i]));
        assert(s.to_set().contains(t[i]));
        let k = choose|k: int| 0 <= k < s.len() && s[k] == t[i];
        assert(s[k].canonical());
        let e = s[k].spec_inverse().unwrap();
        assert(s.to_set().contains(e));
        assert(t.to_set().contains(e));
    }
}

impl PointGroup {
    /// The elements are distinct and closed under multiplication. Every group
    /// that executable code holds satisfies this.
    pub open spec fn wf(self) -> bool {
        is_group_list(self@)
    }

    #[verifier::type_invariant]
    pub(crate) closed spec fn inv(self) -> bool {
        is_group_list(self.symmetries@)
    }

    /// The elements of the group of a result.
    pub open spec fn outcome(r: Result<PointGroup, Error>) -> Result<Seq<PointGroupElement>, Error> {
        match r {
            Ok(g) => Ok(g@),
            Err(e) => Err(e),
        }
    }

    /// The group generated by `generators`: their closure under
    /// multiplication, as [`crate::closure::closure_of`] defines it and with
    /// what [`is_closure`] tells of it.
    ///
    /// It is given up with [`Error::ClosureDivergence`] once [`MAX_PASSES`]
    /// passes have run, and with [`Error::Overflow`] when a product cannot be
    /// stored.
    pub fn from_generators(generators: Vec<PointGroupElement>) -> (r: Result<PointGroup, Error>)
        ensures
            is_closure(generators@, PointGroup::outcome(r)),
            r matches Ok(g) ==> g.wf(),
    {
        match close(&generators) {
            Ok(symmetries) => Ok(PointGroup { symmetries }),
            Err(e) => Err(e),
        }
    }

    /// The group of the given elements, taken once each in the order of their
    /// first occurrence; `None` exactly when they are not a group: when the
    /// inverse of one of them or the product of two of them is not among them
    /// or cannot be stored.
    pub fn from_closed_symmetries(symmetries: Vec<PointGroupElement>) -> (r: Option<PointGroup>)
        ensures
            r is Some <==> is_valid_group(symmetries@),
            r matches Some(g) ==> g.wf() && is_valid_group(g@) && g@ == first_occurrences(
                symmetries@,
            ) && (symmetries@.no_duplicates() ==> g@ == symmetries@),
    {
        let distinct = dedup(&symmetries);
        proof {
            if is_valid_group(symmetries@) {
                lemma_valid_same_set(symmetries@, distinct@);
            }
            if is_valid_group(distinct@) {
                lemma_valid_same_set(distinct@, symmetries@);
            }
        }
        if is_valid(&distinct) {
            Some(PointGroup { symmetries: distinct })
        } else {
            None
        }
    }

    /// The elements of the group.
    pub fn iter(&self) -> (r: &[PointGroupElement])
        ensures
            r@ == self@,
            self.wf(),
    {
        proof {
            use_type_invariant(self);
        }
        self.symmetries.as_slice()
    }

    /// The number of elements.
    pub fn len(&self) -> (r: usize)
        ensures
            r == self@.len(),
    {
        self.symmetries.len()
    }
}

impl IsometryGroup {
    /// The operations are distinct, each in canonical form, and closed under
    /// composition followed by reduction. Every group that executable code
    /// holds satisfies this.
    pub open spec fn wf(self) -> bool {
        is_group_list(self@)
    }

    #[verifier::type_invariant]
    pub(crate) closed spec fn inv(self) -> bool {
        is_group_list(self.symmetries@)
    }

    /// The operations of the group of a result.
    pub open spec fn outcome(r: Result<IsometryGroup, Error>) -> Result<Seq<Isometry>, Error> {
        match r {
            Ok(g) => Ok(g@),
            Err(e) => Err(e),
        }
    }

    /// The group generated by `generators` modulo the lattice translations,
    /// as [`is_group_of`] describes it.
    ///
    /// Each generator is first reduced to its canonical form; the reduced
    /// generators are then closed under composition followed by reduction. It
    /// is given up with [`Error::ClosureDivergence`] once [`MAX_PASSES`] passes
    /// have run, and with [`Error::Overflow`] when a generator cannot be
    /// reduced or a composition cannot be stored.
    pub fn from_generators(generators: Vec<Isometry>) -> (r: Result<IsometryGroup, Error>)
        ensures
            is_group_of(generators@, IsometryGroup::outcome(r)),
            r matches Ok(g) ==> g.wf(),
    {
        let mut canon: Vec<Isometry> = Vec::new();
        let mut k: usize = 0;
        while k < generators.len()
            invariant
                k <= generators.len(),
                canon@.len() == k,
                forall|i: int|
                    0 <= i < k ==> (#[trigger] generators@[i]).checked_rem(Bounds3::unit()) == Some(
                        canon@[i],
                    ),
                forall|i: int| 0 <= i < k ==> (#[trigger] canon@[i]).canonical(),
                forall|i: int| 0 <= i < k ==> (#[trigger] generators@[i]).wf(),
            decreases generators.len() - k,
        {
            let g = generators[k];
            proof {
                use_type_invariant(g);
            }
            match g.checked_rem(Bounds3::unit()) {
                Some(e) => {
                    canon.push(e);
                },
                None => {
                    proof {
                        if is_group_list(generators@) {
                            g.lemma_canonical_fixed();
                        }
                    }
                    return Err(Error::Overflow);
                },
            }
            k += 1;
        }
        proof {
            assert(reducible(generators@));
            assert(canon@ =~= reduced(generators@));
            if is_group_list(generators@) {
                assert forall|i: int| 0 <= i < generators.len() implies canon@[i]
                    == generators@[i] by {
                    generators@[i].lemma_canonical_fixed();
                }
                assert(canon@ =~= generators@);
            }
        }
        match close(&canon) {
            Ok(symmetries) => Ok(IsometryGroup { symmetries }),
            Err(e) => Err(e),
        }
    }

    /// The group of the given operations, taken once each in the order of
    /// their first occurrence; `None` exactly when they are not a group modulo
    /// the lattice translations: when one of them is not in canonical form,
    /// or the reduced inverse of one of them or the reduced composition of two
    /// of them is not among them or cannot be stored.
    pub fn from_closed_symmetries(symmetries: Vec<Isometry>) -> (r: Option<IsometryGroup>)
        ensures
            r is Some <==> is_valid_group(symmetries@),
            r matches Some(g) ==> g.wf() && is_valid_group(g@) && g@ == first_occurrences(
                symmetries@,
            ) && (symmetries@.no_duplicates() ==> g@ == symmetries@),
    {
        let distinct = dedup(&symmetries);
        proof {
            if is_valid_group(symmetries@) {
                lemma_valid_same_set(symmetries@, distinct@);
            }
            if is_valid_group(distinct@) {
                lemma_valid_same_set(distinct@, symmetries@);
            }
        }
        if is_valid(&distinct) {
            Some(IsometryGroup { symmetries: distinct })
        } else {
            None
        }
    }

    /// The point group of the space group: the linear parts of its
    /// operations, taken once each in the order of their first occurrence.
    /// They are closed under multiplication as the operations are closed under
    /// composition, so closing them adds nothing.
    pub fn reduce_to_point_group(&self) -> (r: PointGroup)
        ensures
            r.wf(),
            r@ == first_occurrences(linear_parts(self@)),
    {
        proof {
            use_type_invariant(self);
        }
        let mut parts: Vec<PointGroupElement> = Vec::new();
        let mut k: usize = 0;
        while k < self.symmetries.len()
            invariant
                k <= self.symmetries.len(),
                parts@.len() == k,
                forall|i: int|
                    0 <= i < k ==> (#[trigger] parts@[i]).mat() == self.symmetries@[i].affine().mat,
            decreases self.symmetries.len() - k,
        {
            parts.push(self.symmetries[k].reduce_to_point_group_element());
            k += 1;
        }
        proof {
            assert forall|i: int| 0 <= i < k implies parts@[i] == linear_parts(self@)[i] by {
                PointGroupElement::lemma_of(self.symmetries@[i].affine().mat, parts@[i]);
            }
            assert(parts@ =~= linear_parts(self@));
            lemma_linear_parts_closed(self@);
        }
        let symmetries = dedup(&parts);
        PointGroup { symmetries }
    }

    /// The operations of the group together with their images under the
    /// lattice translations of the supercell `bounds`, each reduced into the
    /// supercell: [`IsometryIter::collect`] lists them, the stored operations
    /// in their order and for each the translations in lexicographic order.
    pub fn iter_with_bounds(&self, bounds: Bounds3) -> (r: IsometryIter<'_, Isometry>)
        ensures
            r.items() == self@,
            r.bounds() == bounds,
    {
        IsometryIter::new(self.symmetries.as_slice(), bounds)
    }

    /// Whether the canonical form of `op` is an operation of the group.
    pub fn contains(&self, op: Isometry) -> (r: bool)
        ensures
            r <==> (op.checked_rem(Bounds3::unit()) matches Some(e) && self@.contains(e)),
    {
        match op.checked_rem(Bounds3::unit()) {
            Some(e) => contains(&self.symmetries, e),
            None => false,
        }
    }

    /// The order of the group modulo the lattice translations.
    pub fn len(&self) -> (r: usize)
        ensures
            r == self@.len(),
    {
        self.symmetries.len()
    }

    /// The operations of the group, in canonical form.
    pub fn get_operations(&self) -> (r: &[Isometry])
        ensures
            r@ == self@,
            self.wf(),
    {
        proof {
            use_type_invariant(self);
        }
        self.symmetries.as_slice()
    }
}

/// Two lists hold the same elements equally often: they are equally long,
/// and every element of the first occurs in the second.
pub open spec fn same_elements<T>(a: Seq<T>, b: Seq<T>) -> bool {
    a.len() == b.len() && forall|i: int| 0 <= i < a.len() ==> b.contains(#[trigger] a[i])
}

/// Whether two lists are equally long and every element of the first occurs in
/// the second.
pub fn have_same_elements<T: GroupElement>(a: &Vec<T>, b: &Vec<T>) -> (r: bool)
    ensures
        r == same_elements(a@, b@),
{
    if a.len() != b.len() {
        return false;
    }
    let mut k: usize = 0;
    while k < a.len()
        invariant
            k <= a.len(),
            a.len() == b.len(),
            forall|i: int| 0 <= i < k ==> b@.contains(#[trigger] a@[i]),
        decreases a.len() - k,
    {
        if !contains(b, a[k]) {
            return false;
        }
        k += 1;
    }
    true
}

impl PartialEq for PointGroup {
    /// Two groups are equal when they hold the same elements.
    fn eq(&self, other: &PointGroup) -> (r: bool) {
        have_same_elements(&self.symmetries, &other.symmetries)
    }
}

impl vstd::std_specs::cmp::PartialEqSpecImpl for PointGroup {
    open spec fn obeys_eq_spec() -> bool {
        true
    }

    open spec fn eq_spec(&self, other: &PointGroup) -> bool {
        same_elements(self@, other@)
    }
}

impl Eq for PointGroup {

}

impl PartialEq for IsometryGroup {
    /// Two groups are equal when they hold the same operations.
    fn eq(&self, other: &IsometryGroup) -> (r: bool) {
        have_same_elements(&self.symmetries, &other.symmetries)
    }
}

impl vstd::std_specs::cmp::PartialEqSpecImpl for IsometryGroup {
    open spec fn obeys_eq_spec() -> bool {
        true
    }

    open spec fn eq_spec(&self, other: &IsometryGroup) -> bool {
        same_elements(self@, other@)
    }
}

impl Eq for IsometryGroup {

}

/// The linear parts of a list of operations that is closed under composition
/// are closed under multiplication.
pub proof fn lemma_linear_parts_closed(s: Seq<Isometry>)
    requires
        is_group_list(s),
    ensures
        crate::closure::closed(linear_parts(s).to_set()),
{
    let parts = linear_parts(s);
    assert forall|a: PointGroupElement, b: PointGroupElement|
        parts.to_set().contains(a) && parts.to_set().contains(b) implies (
    #[trigger] a.spec_compose(b) matches Some(c) && parts.to_set().contains(c)) by {
        let i = choose|i: int| 0 <= i < parts.len() && parts[i] == a;
        let j = choose|j: int| 0 <= j < parts.len() && parts[j] == b;
        let x = s[i];
        let y = s[j];
        assert(s.to_set().contains(x) && s.to_set().contains(y));
        let c = x.spec_compose(y).unwrap();
        assert(s.to_set().contains(c));
        let k = choose|k: int| 0 <= k < s.len() && s[k] == c;
        PointGroupElement::lemma_of(x.affine().mat, a);
        PointGroupElement::lemma_of(y.affine().mat, b);
        let p = x.checked_mul(y).unwrap();
        Isometry::lemma_of(x.affine().checked_mul(y.affine()).unwrap(), p);
        Isometry::lemma_of(p.affine().checked_rem(Bounds3::unit()).unwrap(), c);
        let m = x.affine().mat.checked_mul(y.affine().mat).unwrap();
        assert(c.affine().mat == m);
        assert(parts[k] == PointGroupElement::of(m));
    }
}

/// The linear parts of a list of operations.
pub open spec fn linear_parts(s: Seq<Isometry>) -> Seq<PointGroupElement> {
    Seq::new(s.len(), |i: int| PointGroupElement::of(s[i].affine().mat))
}

} // verus!
