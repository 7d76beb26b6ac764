//! Laws of groups of symmetry operations modulo the lattice translations.
use vstd::prelude::*;
use crate::affine_space::{Affine3, Bounds3};
use crate::closure::{is_group_list, lemma_left_composition_onto, GroupElement};
use crate::reals::RealAffine3;
use crate::symmetry::Isometry;

verus! {

/// A list of operations that is a group and whose operations take the lattice
/// onto itself: the linear part of each is a whole matrix.
pub open spec fn is_lattice_group(s: Seq<Isometry>) -> bool {
    &&& is_group_list(s)
    &&& forall|i: int| 0 <= i < s.len() ==> (#[trigger] s[i]).wf() && s[i]@.is_lattice_map()
}

impl Isometry {
    /// Operations of equal value are equal.
    pub proof fn lemma_view_injective(a: Isometry, b: Isometry)
        requires
            a.wf(),
            b.wf(),
            a@ == b@,
        ensures
            a == b,
    {
        Affine3::lemma_view_injective(a.affine(), b.affine());
        Isometry::lemma_of(a.affine(), a);
        Isometry::lemma_of(b.affine(), b);
    }

    /// An operation is in canonical form exactly when its translation lies in
    /// `(-1/2, 1/2]` along each axis.
    pub proof fn lemma_canonical(self)
        ensures
            self.canonical() <==> self@.translation.is_centered(),
    {
        Bounds3::lemma_unit();
    }

    /// A reduced composition that can be stored is well formed and has the
    /// exact value: the composition, reduced modulo the lattice translations.
    pub proof fn lemma_compose(self, rhs: Isometry)
        requires
            self.wf(),
            rhs.wf(),
        ensures
            self.spec_compose(rhs) matches Some(c) ==> c.wf() && c.canonical() && c@
                == self@.compose(rhs@).wrap_centered(1, 1, 1),
    {
        Bounds3::lemma_unit();
        self.affine().lemma_checked_mul(rhs.affine());
        if self.checked_mul(rhs) is Some {
            let p = self.checked_mul(rhs).unwrap();
            Isometry::lemma_of(self.affine().checked_mul(rhs.affine()).unwrap(), p);
            p.affine().lemma_checked_rem(Bounds3::unit());
            self@.mat.lemma_det_mul(rhs@.mat);
            crate::symmetry::lemma_units(self@.mat.det(), rhs@.mat.det());
            if p.checked_rem(Bounds3::unit()) is Some {
                let c = p.checked_rem(Bounds3::unit()).unwrap();
                Isometry::lemma_of(p.affine().checked_rem(Bounds3::unit()).unwrap(), c);
                p.affine().translation.law_rem_range(Bounds3::unit());
                c@.translation.lemma_wrap_centered_fixed();
                self@.compose(rhs@).translation.lemma_wrap_centered_fixed();
                c.lemma_canonical();
            }
        }
    }
}

/// In a group of lattice maps, composition can be cancelled on the left.
proof fn lemma_group_cancel(s: Seq<Isometry>, a: Isometry, x: Isometry, y: Isometry)
    requires
        is_lattice_group(s),
        s.contains(a),
        s.contains(x),
        s.contains(y),
        a.spec_compose(x) == a.spec_compose(y),
    ensures
        x == y,
{
    assert(s.to_set().contains(a) && s.to_set().contains(x) && s.to_set().contains(y));
    a.lemma_compose(x);
    a.lemma_compose(y);
    x.lemma_canonical();
    y.lemma_canonical();
    a@.lemma_cancel(x@, y@);
    Isometry::lemma_view_injective(x, y);
}

/// A group of lattice maps that is not empty holds the identity.
pub proof fn law_group_holds_identity(s: Seq<Isometry>)
    requires
        is_lattice_group(s),
        s.len() > 0,
    ensures
        exists|j: int| 0 <= j < s.len() && (#[trigger] s[j])@ == RealAffine3::identity(),
{
    let a = s[0];
    let set = s.to_set();
    assert(set.contains(a));
    assert forall|x: Isometry, y: Isometry|
        set.contains(x) && set.contains(y) && #[trigger] a.spec_compose(x) == #[trigger] a.spec_compose(
            y,
        ) implies x == y by {
        lemma_group_cancel(s, a, x, y);
    }
    lemma_left_composition_onto(set, a, a);
    let x = choose|x: Isometry| set.contains(x) && #[trigger] a.spec_compose(x) == Some(a);
    let j = choose|j: int| 0 <= j < s.len() && s[j] == x;
    a.lemma_compose(x);
    a.lemma_canonical();
    x.lemma_canonical();
    a@.lemma_neutral(x@);
}

/// A group of lattice maps holds the inverse of each of its operations: the
/// inverse map, reduced modulo the lattice translations.
pub proof fn law_group_holds_inverses(s: Seq<Isometry>, i: int)
    requires
        is_lattice_group(s),
        0 <= i < s.len(),
    ensures
        exists|j: int|
            0 <= j < s.len() && (#[trigger] s[j])@ == s[i]@.inverse().wrap_centered(1, 1, 1),
{
    let a = s[i];
    let set = s.to_set();
    law_group_holds_identity(s);
    let k = choose|k: int| 0 <= k < s.len() && (#[trigger] s[k])@ == RealAffine3::identity();
    let e = s[k];
    assert(set.contains(a) && set.contains(e));
    assert forall|x: Isometry, y: Isometry|
        set.contains(x) && set.contains(y) && #[trigger] a.spec_compose(x) == #[trigger] a.spec_compose(
            y,
        ) implies x == y by {
        lemma_group_cancel(s, a, x, y);
    }
    lemma_left_composition_onto(set, a, e);
    let y = choose|y: Isometry| set.contains(y) && #[trigger] a.spec_compose(y) == Some(e);
    let j = choose|j: int| 0 <= j < s.len() && s[j] == y;
    a.lemma_compose(y);
    y.lemma_canonical();
    a@.lemma_inverse_unique(y@);
}

} // verus!
