//! What the checked operations of the affine algebra compute when they
//! succeed, and the laws of inversion and of periodic reduction.
use vstd::prelude::*;
use crate::affine_space::{Affine3, Bounds3, Mat3, Pos3, Vec3};
use crate::frac::Frac;
use crate::reals::{
    lemma_wrap, lemma_wrap_centered, lemma_wrap_centered_idempotent, lemma_wrap_idempotent,
    RealAffine3, RealMat3,
};

verus! {

impl Frac {
    /// A sum of three products that can be stored has the exact value.
    pub proof fn lemma_dot3(a1: Frac, b1: Frac, a2: Frac, b2: Frac, a3: Frac, b3: Frac)
        ensures
            Frac::dot3(a1, b1, a2, b2, a3, b3) matches Some(d) ==> d.wf() && d@ == a1@ * b1@ + a2@
                * b2@ + a3@ * b3@,
    {
    }

    /// A 2x2 determinant that can be stored has the exact value.
    pub proof fn lemma_minor(p: Frac, q: Frac, r: Frac, s: Frac)
        ensures
            Frac::minor(p, q, r, s) matches Some(d) ==> d.wf() && d@ == p@ * q@ - r@ * s@,
    {
    }
}

impl Mat3 {
    /// A determinant that can be computed has the exact value.
    pub proof fn lemma_determinant(self)
        ensures
            self.determinant() matches Some(d) ==> d.wf() && d@ == self@.det(),
    {
        Frac::lemma_minor(self.m11, self.m22, self.m12, self.m21);
        Frac::lemma_minor(self.m10, self.m22, self.m12, self.m20);
        Frac::lemma_minor(self.m10, self.m21, self.m11, self.m20);
    }

    /// An adjoint that can be computed has the exact value.
    pub proof fn lemma_adjoint(self)
        ensures
            self.adjoint() matches Some(a) ==> a.wf() && a@ == self@.adjoint(),
    {
        Frac::lemma_minor(self.m11, self.m22, self.m12, self.m21);
        Frac::lemma_minor(self.m12, self.m20, self.m10, self.m22);
        Frac::lemma_minor(self.m10, self.m21, self.m11, self.m20);
        Frac::lemma_minor(self.m21, self.m02, self.m22, self.m01);
        Frac::lemma_minor(self.m00, self.m22, self.m02, self.m20);
        Frac::lemma_minor(self.m01, self.m20, self.m00, self.m21);
        Frac::lemma_minor(self.m01, self.m12, self.m02, self.m11);
        Frac::lemma_minor(self.m02, self.m10, self.m00, self.m12);
        Frac::lemma_minor(self.m00, self.m11, self.m01, self.m10);
    }

    /// An inverse that can be computed belongs to a matrix whose determinant
    /// is not zero, and has the exact value.
    pub proof fn lemma_inverse(self)
        ensures
            self.inverse() matches Some(inv) ==> inv.wf() && self@.det() != 0real && inv@
                == self@.inverse(),
    {
        self.lemma_determinant();
        self.lemma_adjoint();
    }

    /// A matrix product that can be computed has the exact value.
    pub proof fn lemma_checked_mul(self, rhs: Mat3)
        ensures
            self.checked_mul(rhs) matches Some(p) ==> p.wf() && p@ == self@.mul(rhs@),
    {
        Frac::lemma_dot3(self.m00, rhs.m00, self.m01, rhs.m10, self.m02, rhs.m20);
        Frac::lemma_dot3(self.m00, rhs.m01, self.m01, rhs.m11, self.m02, rhs.m21);
        Frac::lemma_dot3(self.m00, rhs.m02, self.m01, rhs.m12, self.m02, rhs.m22);
        Frac::lemma_dot3(self.m10, rhs.m00, self.m11, rhs.m10, self.m12, rhs.m20);
        Frac::lemma_dot3(self.m10, rhs.m01, self.m11, rhs.m11, self.m12, rhs.m21);
        Frac::lemma_dot3(self.m10, rhs.m02, self.m11, rhs.m12, self.m12, rhs.m22);
        Frac::lemma_dot3(self.m20, rhs.m00, self.m21, rhs.m10, self.m22, rhs.m20);
        Frac::lemma_dot3(self.m20, rhs.m01, self.m21, rhs.m11, self.m22, rhs.m21);
        Frac::lemma_dot3(self.m20, rhs.m02, self.m21, rhs.m12, self.m22, rhs.m22);
    }

    /// The image of a vector that can be computed has the exact value.
    pub proof fn lemma_checked_mul_vec(self, v: Vec3)
        ensures
            self.checked_mul_vec(v) matches Some(p) ==> p.wf() && p@ == self@.apply(v@),
    {
        Frac::lemma_dot3(self.m00, v.x, self.m01, v.y, self.m02, v.z);
        Frac::lemma_dot3(self.m10, v.x, self.m11, v.y, self.m12, v.z);
        Frac::lemma_dot3(self.m20, v.x, self.m21, v.y, self.m22, v.z);
    }

    /// The image of a position that can be computed has the exact value.
    pub proof fn lemma_checked_mul_pos(self, p: Pos3)
        ensures
            self.checked_mul_pos(p) matches Some(q) ==> q.wf() && q@ == self@.apply(p@),
    {
        Frac::lemma_dot3(self.m00, p.x, self.m01, p.y, self.m02, p.z);
        Frac::lemma_dot3(self.m10, p.x, self.m11, p.y, self.m12, p.z);
        Frac::lemma_dot3(self.m20, p.x, self.m21, p.y, self.m22, p.z);
    }

    /// A matrix times its inverse is the identity, on either side; a matrix
    /// whose determinant is zero has no inverse.
    pub proof fn law_inverse(self)
        ensures
            self.inverse() matches Some(inv) ==> self@.mul(inv@) == RealMat3::identity() && inv@.mul(
                self@,
            ) == RealMat3::identity(),
            self.inverse() matches Some(inv) ==> (self.checked_mul(inv) matches Some(p) ==> Some(p)
                == Mat3::checked(RealMat3::identity())),
            self@.det() == 0real ==> self.inverse() is None,
    {
        self.lemma_inverse();
        self.lemma_determinant();
        if self.inverse() is Some {
            let inv = self.inverse().unwrap();
            self@.lemma_inverse();
            self.lemma_checked_mul(inv);
            if self.checked_mul(inv) is Some {
                let p = self.checked_mul(inv).unwrap();
                Mat3::lemma_checked_some(p, RealMat3::identity());
            }
        }
    }
}

impl Affine3 {
    /// An inverse map that can be computed belongs to a map whose linear part
    /// has a determinant other than zero, and has the exact value.
    pub proof fn lemma_inverse(self)
        ensures
            self.inverse() matches Some(inv) ==> inv.wf() && self@.mat.det() != 0real && inv@
                == self@.inverse(),
    {
        self.mat.lemma_inverse();
        if self.mat.inverse() is Some {
            self.mat.inverse().unwrap().lemma_checked_mul_vec(self.translation);
        }
    }

    /// A composition that can be computed has the exact value.
    pub proof fn lemma_checked_mul(self, rhs: Affine3)
        ensures
            self.checked_mul(rhs) matches Some(p) ==> p.wf() && p@ == self@.compose(rhs@),
    {
        self.mat.lemma_checked_mul(rhs.mat);
        self.mat.lemma_checked_mul_vec(rhs.translation);
    }

    /// The image of a position that can be computed has the exact value.
    pub proof fn lemma_checked_mul_pos(self, p: Pos3)
        ensures
            self.checked_mul_pos(p) matches Some(q) ==> q.wf() && q@ == self@.apply_pos(p@),
    {
        self.mat.lemma_checked_mul_pos(p);
    }

    /// The image of a displacement that can be computed has the exact value.
    pub proof fn lemma_checked_mul_vec(self, v: Vec3)
        ensures
            self.checked_mul_vec(v) matches Some(q) ==> q.wf() && q@ == self@.apply_vec(v@),
    {
        self.mat.lemma_checked_mul_vec(v);
    }

    /// A reduced map that can be stored keeps the linear part and has the
    /// reduced translation.
    pub proof fn lemma_checked_rem(self, bounds: Bounds3)
        ensures
            self.checked_rem(bounds) matches Some(a) ==> a.translation.wf() && a.mat == self.mat
                && a@ == self@.wrap_centered(
                bounds.x() as int,
                bounds.y() as int,
                bounds.z() as int,
            ),
    {
    }

    /// Maps of equal value are equal.
    pub proof fn lemma_view_injective(a: Affine3, b: Affine3)
        requires
            a.wf(),
            b.wf(),
            a@ == b@,
        ensures
            a == b,
    {
        Mat3::lemma_view_injective(a.mat, b.mat);
        Frac::lemma_view_injective(a.translation.x, b.translation.x);
        Frac::lemma_view_injective(a.translation.y, b.translation.y);
        Frac::lemma_view_injective(a.translation.z, b.translation.z);
    }

    /// An affine map composed with its inverse is the identity, on either
    /// side; a map whose linear part has determinant zero has no inverse.
    pub proof fn law_inverse(self)
        ensures
            self.inverse() matches Some(inv) ==> self@.compose(inv@) == RealAffine3::identity()
                && inv@.compose(self@) == RealAffine3::identity(),
            self@.mat.det() == 0real ==> self.inverse() is None,
    {
        self.lemma_inverse();
        self.mat.law_inverse();
        if self.inverse() is Some {
            self@.lemma_inverse();
        }
    }

    /// Applying a map and then its inverse gives back the position.
    pub proof fn law_inverse_undoes_pos(self, p: Pos3)
        requires
            p.wf(),
        ensures
            self.inverse() matches Some(inv) ==> (self.checked_mul_pos(p) matches Some(q)
                ==> inv@.apply_pos(q@) == p@ && (inv.checked_mul_pos(q) matches Some(r) ==> r
                == p)),
    {
        self.lemma_inverse();
        self.lemma_checked_mul_pos(p);
        if self.inverse() is Some && self.checked_mul_pos(p) is Some {
            let inv = self.inverse().unwrap();
            let q = self.checked_mul_pos(p).unwrap();
            self@.lemma_inverse_apply(p@);
            inv.lemma_checked_mul_pos(q);
            if inv.checked_mul_pos(q) is Some {
                let r = inv.checked_mul_pos(q).unwrap();
                Frac::lemma_view_injective(r.x, p.x);
                Frac::lemma_view_injective(r.y, p.y);
                Frac::lemma_view_injective(r.z, p.z);
            }
        }
    }

    /// Applying a map and then its inverse gives back the displacement.
    pub proof fn law_inverse_undoes_vec(self, v: Vec3)
        requires
            v.wf(),
        ensures
            self.inverse() matches Some(inv) ==> (self.checked_mul_vec(v) matches Some(q)
                ==> inv@.apply_vec(q@) == v@ && (inv.checked_mul_vec(q) matches Some(r) ==> r
                == v)),
    {
        self.lemma_inverse();
        self.lemma_checked_mul_vec(v);
        if self.inverse() is Some && self.checked_mul_vec(v) is Some {
            let inv = self.inverse().unwrap();
            let q = self.checked_mul_vec(v).unwrap();
            self@.lemma_inverse_apply(v@);
            inv.lemma_checked_mul_vec(q);
            if inv.checked_mul_vec(q) is Some {
                let r = inv.checked_mul_vec(q).unwrap();
                Frac::lemma_view_injective(r.x, v.x);
                Frac::lemma_view_injective(r.y, v.y);
                Frac::lemma_view_injective(r.z, v.z);
            }
        }
    }
}

impl Pos3 {
    /// A reduced position lies in the supercell: each coordinate is in
    /// `[0, bound)`.
    pub proof fn law_rem_range(self, bounds: Bounds3)
        requires
            bounds.wf(),
        ensures
            self.checked_rem(bounds) matches Some(q) ==> bounds.contains_pos(q),
    {
        lemma_wrap(self.x@, bounds.x() as int);
        lemma_wrap(self.y@, bounds.y() as int);
        lemma_wrap(self.z@, bounds.z() as int);
    }

    /// Reducing a position twice is reducing it once.
    pub proof fn law_rem_idempotent(self, bounds: Bounds3)
        requires
            bounds.wf(),
        ensures
            self.checked_rem(bounds) matches Some(q) ==> q.checked_rem(bounds) == Some(q),
    {
        lemma_wrap_idempotent(self.x@, bounds.x() as int);
        lemma_wrap_idempotent(self.y@, bounds.y() as int);
        lemma_wrap_idempotent(self.z@, bounds.z() as int);
        if self.checked_rem(bounds) is Some {
            let q = self.checked_rem(bounds).unwrap();
            Pos3::lemma_checked_some(q, q@);
        }
    }
}

impl Vec3 {
    /// A reduced displacement is the shortest of its images: each coordinate
    /// is in `(-bound/2, bound/2]`.
    pub proof fn law_rem_range(self, bounds: Bounds3)
        requires
            bounds.wf(),
        ensures
            self.checked_rem(bounds) matches Some(q) ==> bounds.contains_vec(q),
    {
        lemma_wrap_centered(self.x@, bounds.x() as int);
        lemma_wrap_centered(self.y@, bounds.y() as int);
        lemma_wrap_centered(self.z@, bounds.z() as int);
    }

    /// Reducing a displacement twice is reducing it once.
    pub proof fn law_rem_idempotent(self, bounds: Bounds3)
        requires
            bounds.wf(),
        ensures
            self.checked_rem(bounds) matches Some(q) ==> q.checked_rem(bounds) == Some(q),
    {
        lemma_wrap_centered_idempotent(self.x@, bounds.x() as int);
        lemma_wrap_centered_idempotent(self.y@, bounds.y() as int);
        lemma_wrap_centered_idempotent(self.z@, bounds.z() as int);
        if self.checked_rem(bounds) is Some {
            let q = self.checked_rem(bounds).unwrap();
            Vec3::lemma_checked_some(q, q@);
        }
    }
}

} // verus!
