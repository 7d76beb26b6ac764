//! The arithmetic operators of the algebra.
//!
//! Each operator is the checked operation of the same meaning, for operands
//! whose exact result can be stored: that is what the operator requires.
use vstd::prelude::*;
use vstd::std_specs::ops::{
    AddSpecImpl, DivSpecImpl, MulSpecImpl, NegSpecImpl, RemSpecImpl, SubSpecImpl,
};
use crate::affine_space::{Affine3, Bounds3, Mat3, Pos3, Vec3};
use crate::frac::Frac;
use crate::symmetry::{Isometry, PointGroupElement};

verus! {

impl core::ops::Add for Frac {
    type Output = Frac;

    fn add(self, rhs: Frac) -> (r: Frac) {
        self.checked_add(rhs).unwrap()
    }
}

impl AddSpecImpl for Frac {
    open spec fn obeys_add_spec() -> bool {
        true
    }

    open spec fn add_req(self, rhs: Frac) -> bool {
        self.checked_add(rhs) is Some
    }

    open spec fn add_spec(self, rhs: Frac) -> Frac {
        self.checked_add(rhs).unwrap()
    }
}

impl core::ops::Sub for Frac {
    type Output = Frac;

    fn sub(self, rhs: Frac) -> (r: Frac) {
        self.checked_sub(rhs).unwrap()
    }
}

impl SubSpecImpl for Frac {
    open spec fn obeys_sub_spec() -> bool {
        true
    }

    open spec fn sub_req(self, rhs: Frac) -> bool {
        self.checked_sub(rhs) is Some
    }

    open spec fn sub_spec(self, rhs: Frac) -> Frac {
        self.checked_sub(rhs).unwrap()
    }
}

impl core::ops::Mul for Frac {
    type Output = Frac;

    fn mul(self, rhs: Frac) -> (r: Frac) {
        self.checked_mul(rhs).unwrap()
    }
}

impl MulSpecImpl for Frac {
    open spec fn obeys_mul_spec() -> bool {
        true
    }

    open spec fn mul_req(self, rhs: Frac) -> bool {
        self.checked_mul(rhs) is Some
    }

    open spec fn mul_spec(self, rhs: Frac) -> Frac {
        self.checked_mul(rhs).unwrap()
    }
}

impl core::ops::Div for Frac {
    type Output = Frac;

    fn div(self, rhs: Frac) -> (r: Frac) {
        self.checked_div(rhs).unwrap()
    }
}

impl DivSpecImpl for Frac {
    open spec fn obeys_div_spec() -> bool {
        true
    }

    open spec fn div_req(self, rhs: Frac) -> bool {
        self.checked_div(rhs) is Some
    }

    open spec fn div_spec(self, rhs: Frac) -> Frac {
        self.checked_div(rhs).unwrap()
    }
}

impl core::ops::Rem for Frac {
    type Output = Frac;

    fn rem(self, rhs: Frac) -> (r: Frac) {
        self.checked_rem(rhs).unwrap()
    }
}

impl RemSpecImpl for Frac {
    open spec fn obeys_rem_spec() -> bool {
        true
    }

    open spec fn rem_req(self, rhs: Frac) -> bool {
        self.checked_rem(rhs) is Some
    }

    open spec fn rem_spec(self, rhs: Frac) -> Frac {
        self.checked_rem(rhs).unwrap()
    }
}

impl core::ops::Neg for Frac {
    type Output = Frac;

    fn neg(self) -> (r: Frac) {
        self.checked_neg().unwrap()
    }
}

impl NegSpecImpl for Frac {
    open spec fn obeys_neg_spec() -> bool {
        true
    }

    open spec fn neg_req(self) -> bool {
        self.checked_neg() is Some
    }

    open spec fn neg_spec(self) -> Frac {
        self.checked_neg().unwrap()
    }
}

impl core::ops::Add for Vec3 {
    type Output = Vec3;

    fn add(self, rhs: Vec3) -> (r: Vec3) {
        self.checked_add(rhs).unwrap()
    }
}

impl AddSpecImpl for Vec3 {
    open spec fn obeys_add_spec() -> bool {
        true
    }

    open spec fn add_req(self, rhs: Vec3) -> bool {
        self.checked_add(rhs) is Some
    }

    open spec fn add_spec(self, rhs: Vec3) -> Vec3 {
        self.checked_add(rhs).unwrap()
    }
}

impl core::ops::Sub for Vec3 {
    type Output = Vec3;

    fn sub(self, rhs: Vec3) -> (r: Vec3) {
        self.checked_sub(rhs).unwrap()
    }
}

impl SubSpecImpl for Vec3 {
    open spec fn obeys_sub_spec() -> bool {
        true
    }

    open spec fn sub_req(self, rhs: Vec3) -> bool {
        self.checked_sub(rhs) is Some
    }

    open spec fn sub_spec(self, rhs: Vec3) -> Vec3 {
        self.checked_sub(rhs).unwrap()
    }
}

impl core::ops::Mul<Frac> for Vec3 {
    type Output = Vec3;

    fn mul(self, rhs: Frac) -> (r: Vec3) {
        self.checked_mul(rhs).unwrap()
    }
}

impl MulSpecImpl<Frac> for Vec3 {
    open spec fn obeys_mul_spec() -> bool {
        true
    }

    open spec fn mul_req(self, rhs: Frac) -> bool {
        self.checked_mul(rhs) is Some
    }

    open spec fn mul_spec(self, rhs: Frac) -> Vec3 {
        self.checked_mul(rhs).unwrap()
    }
}

impl core::ops::Mul<Vec3> for Frac {
    type Output = Vec3;

    fn mul(self, rhs: Vec3) -> (r: Vec3) {
        rhs.checked_mul(self).unwrap()
    }
}

impl MulSpecImpl<Vec3> for Frac {
    open spec fn obeys_mul_spec() -> bool {
        true
    }

    open spec fn mul_req(self, rhs: Vec3) -> bool {
        rhs.checked_mul(self) is Some
    }

    open spec fn mul_spec(self, rhs: Vec3) -> Vec3 {
        rhs.checked_mul(self).unwrap()
    }
}

impl core::ops::Div<Frac> for Vec3 {
    type Output = Vec3;

    fn div(self, rhs: Frac) -> (r: Vec3) {
        self.checked_div(rhs).unwrap()
    }
}

impl DivSpecImpl<Frac> for Vec3 {
    open spec fn obeys_div_spec() -> bool {
        true
    }

    open spec fn div_req(self, rhs: Frac) -> bool {
        self.checked_div(rhs) is Some
    }

    open spec fn div_spec(self, rhs: Frac) -> Vec3 {
        self.checked_div(rhs).unwrap()
    }
}

impl core::ops::Neg for Vec3 {
    type Output = Vec3;

    fn neg(self) -> (r: Vec3) {
        self.checked_neg().unwrap()
    }
}

impl NegSpecImpl for Vec3 {
    open spec fn obeys_neg_spec() -> bool {
        true
    }

    open spec fn neg_req(self) -> bool {
        self.checked_neg() is Some
    }

    open spec fn neg_spec(self) -> Vec3 {
        self.checked_neg().unwrap()
    }
}

impl core::ops::Rem<Bounds3> for Vec3 {
    type Output = Vec3;

    fn rem(self, rhs: Bounds3) -> (r: Vec3) {
        self.checked_rem(rhs).unwrap()
    }
}

impl RemSpecImpl<Bounds3> for Vec3 {
    open spec fn obeys_rem_spec() -> bool {
        true
    }

    open spec fn rem_req(self, rhs: Bounds3) -> bool {
        self.checked_rem(rhs) is Some
    }

    open spec fn rem_spec(self, rhs: Bounds3) -> Vec3 {
        self.checked_rem(rhs).unwrap()
    }
}

impl core::ops::Add<Pos3> for Vec3 {
    type Output = Pos3;

    fn add(self, rhs: Pos3) -> (r: Pos3) {
        rhs.checked_add(self).unwrap()
    }
}

impl AddSpecImpl<Pos3> for Vec3 {
    open spec fn obeys_add_spec() -> bool {
        true
    }

    open spec fn add_req(self, rhs: Pos3) -> bool {
        rhs.checked_add(self) is Some
    }

    open spec fn add_spec(self, rhs: Pos3) -> Pos3 {
        rhs.checked_add(self).unwrap()
    }
}

impl core::ops::Sub for Pos3 {
    type Output = Vec3;

    fn sub(self, rhs: Pos3) -> (r: Vec3) {
        self.checked_sub(rhs).unwrap()
    }
}

impl SubSpecImpl for Pos3 {
    open spec fn obeys_sub_spec() -> bool {
        true
    }

    open spec fn sub_req(self, rhs: Pos3) -> bool {
        self.checked_sub(rhs) is Some
    }

    open spec fn sub_spec(self, rhs: Pos3) -> Vec3 {
        self.checked_sub(rhs).unwrap()
    }
}

impl core::ops::Add<Vec3> for Pos3 {
    type Output = Pos3;

    fn add(self, rhs: Vec3) -> (r: Pos3) {
        self.checked_add(rhs).unwrap()
    }
}

impl AddSpecImpl<Vec3> for Pos3 {
    open spec fn obeys_add_spec() -> bool {
        true
    }

    open spec fn add_req(self, rhs: Vec3) -> bool {
        self.checked_add(rhs) is Some
    }

    open spec fn add_spec(self, rhs: Vec3) -> Pos3 {
        self.checked_add(rhs).unwrap()
    }
}

impl core::ops::Rem<Bounds3> for Pos3 {
    type Output = Pos3;

    fn rem(self, rhs: Bounds3) -> (r: Pos3) {
        self.checked_rem(rhs).unwrap()
    }
}

impl RemSpecImpl<Bounds3> for Pos3 {
    open spec fn obeys_rem_spec() -> bool {
        true
    }

    open spec fn rem_req(self, rhs: Bounds3) -> bool {
        self.checked_rem(rhs) is Some
    }

    open spec fn rem_spec(self, rhs: Bounds3) -> Pos3 {
        self.checked_rem(rhs).unwrap()
    }
}

impl core::ops::Mul for Mat3 {
    type Output = Mat3;

    fn mul(self, rhs: Mat3) -> (r: Mat3) {
        self.checked_mul(rhs).unwrap()
    }
}

impl MulSpecImpl for Mat3 {
    open spec fn obeys_mul_spec() -> bool {
        true
    }

    open spec fn mul_req(self, rhs: Mat3) -> bool {
        self.checked_mul(rhs) is Some
    }

    open spec fn mul_spec(self, rhs: Mat3) -> Mat3 {
        self.checked_mul(rhs).unwrap()
    }
}

impl core::ops::Mul<Frac> for Mat3 {
    type Output = Mat3;

    fn mul(self, rhs: Frac) -> (r: Mat3) {
        self.checked_scale(rhs).unwrap()
    }
}

impl MulSpecImpl<Frac> for Mat3 {
    open spec fn obeys_mul_spec() -> bool {
        true
    }

    open spec fn mul_req(self, rhs: Frac) -> bool {
        self.checked_scale(rhs) is Some
    }

    open spec fn mul_spec(self, rhs: Frac) -> Mat3 {
        self.checked_scale(rhs).unwrap()
    }
}

impl core::ops::Mul<Mat3> for Frac {
    type Output = Mat3;

    fn mul(self, rhs: Mat3) -> (r: Mat3) {
        rhs.checked_scale(self).unwrap()
    }
}

impl MulSpecImpl<Mat3> for Frac {
    open spec fn obeys_mul_spec() -> bool {
        true
    }

    open spec fn mul_req(self, rhs: Mat3) -> bool {
        rhs.checked_scale(self) is Some
    }

    open spec fn mul_spec(self, rhs: Mat3) -> Mat3 {
        rhs.checked_scale(self).unwrap()
    }
}

impl core::ops::Mul<Vec3> for Mat3 {
    type Output = Vec3;

    fn mul(self, rhs: Vec3) -> (r: Vec3) {
        self.checked_mul_vec(rhs).unwrap()
    }
}

impl MulSpecImpl<Vec3> for Mat3 {
    open spec fn obeys_mul_spec() -> bool {
        true
    }

    open spec fn mul_req(self, rhs: Vec3) -> bool {
        self.checked_mul_vec(rhs) is Some
    }

    open spec fn mul_spec(self, rhs: Vec3) -> Vec3 {
        self.checked_mul_vec(rhs).unwrap()
    }
}

impl core::ops::Mul<Pos3> for Mat3 {
    type Output = Pos3;

    fn mul(self, rhs: Pos3) -> (r: Pos3) {
        self.checked_mul_pos(rhs).unwrap()
    }
}

impl MulSpecImpl<Pos3> for Mat3 {
    open spec fn obeys_mul_spec() -> bool {
        true
    }

    open spec fn mul_req(self, rhs: Pos3) -> bool {
        self.checked_mul_pos(rhs) is Some
    }

    open spec fn mul_spec(self, rhs: Pos3) -> Pos3 {
        self.checked_mul_pos(rhs).unwrap()
    }
}

impl core::ops::Mul for Affine3 {
    type Output = Affine3;

    fn mul(self, rhs: Affine3) -> (r: Affine3) {
        self.checked_mul(rhs).unwrap()
    }
}

impl MulSpecImpl for Affine3 {
    open spec fn obeys_mul_spec() -> bool {
        true
    }

    open spec fn mul_req(self, rhs: Affine3) -> bool {
        self.checked_mul(rhs) is Some
    }

    open spec fn mul_spec(self, rhs: Affine3) -> Affine3 {
        self.checked_mul(rhs).unwrap()
    }
}

impl core::ops::Mul<Vec3> for Affine3 {
    type Output = Vec3;

    fn mul(self, rhs: Vec3) -> (r: Vec3) {
        self.checked_mul_vec(rhs).unwrap()
    }
}

impl MulSpecImpl<Vec3> for Affine3 {
    open spec fn obeys_mul_spec() -> bool {
        true
    }

    open spec fn mul_req(self, rhs: Vec3) -> bool {
        self.checked_mul_vec(rhs) is Some
    }

    open spec fn mul_spec(self, rhs: Vec3) -> Vec3 {
        self.checked_mul_vec(rhs).unwrap()
    }
}

impl core::ops::Mul<Pos3> for Affine3 {
    type Output = Pos3;

    fn mul(self, rhs: Pos3) -> (r: Pos3) {
        self.checked_mul_pos(rhs).unwrap()
    }
}

impl MulSpecImpl<Pos3> for Affine3 {
    open spec fn obeys_mul_spec() -> bool {
        true
    }

    open spec fn mul_req(self, rhs: Pos3) -> bool {
        self.checked_mul_pos(rhs) is Some
    }

    open spec fn mul_spec(self, rhs: Pos3) -> Pos3 {
        self.checked_mul_pos(rhs).unwrap()
    }
}

impl core::ops::Rem<Bounds3> for Affine3 {
    type Output = Affine3;

    fn rem(self, rhs: Bounds3) -> (r: Affine3) {
        self.checked_rem(rhs).unwrap()
    }
}

impl RemSpecImpl<Bounds3> for Affine3 {
    open spec fn obeys_rem_spec() -> bool {
        true
    }

    open spec fn rem_req(self, rhs: Bounds3) -> bool {
        self.checked_rem(rhs) is Some
    }

    open spec fn rem_spec(self, rhs: Bounds3) -> Affine3 {
        self.checked_rem(rhs).unwrap()
    }
}

impl core::ops::Mul for PointGroupElement {
    type Output = PointGroupElement;

    fn mul(self, rhs: PointGroupElement) -> (r: PointGroupElement) {
        self.checked_mul(rhs).unwrap()
    }
}

impl MulSpecImpl for PointGroupElement {
    open spec fn obeys_mul_spec() -> bool {
        true
    }

    open spec fn mul_req(self, rhs: PointGroupElement) -> bool {
        self.checked_mul(rhs) is Some
    }

    open spec fn mul_spec(self, rhs: PointGroupElement) -> PointGroupElement {
        self.checked_mul(rhs).unwrap()
    }
}

impl core::ops::Mul<Vec3> for PointGroupElement {
    type Output = Vec3;

    fn mul(self, rhs: Vec3) -> (r: Vec3) {
        self.mat().checked_mul_vec(rhs).unwrap()
    }
}

impl MulSpecImpl<Vec3> for PointGroupElement {
    open spec fn obeys_mul_spec() -> bool {
        true
    }

    open spec fn mul_req(self, rhs: Vec3) -> bool {
        self.mat().checked_mul_vec(rhs) is Some
    }

    open spec fn mul_spec(self, rhs: Vec3) -> Vec3 {
        self.mat().checked_mul_vec(rhs).unwrap()
    }
}

impl core::ops::Mul<Pos3> for PointGroupElement {
    type Output = Pos3;

    fn mul(self, rhs: Pos3) -> (r: Pos3) {
        self.mat().checked_mul_pos(rhs).unwrap()
    }
}

impl MulSpecImpl<Pos3> for PointGroupElement {
    open spec fn obeys_mul_spec() -> bool {
        true
    }

    open spec fn mul_req(self, rhs: Pos3) -> bool {
        self.mat().checked_mul_pos(rhs) is Some
    }

    open spec fn mul_spec(self, rhs: Pos3) -> Pos3 {
        self.mat().checked_mul_pos(rhs).unwrap()
    }
}

impl core::ops::Mul for Isometry {
    type Output = Isometry;

    fn mul(self, rhs: Isometry) -> (r: Isometry) {
        self.checked_mul(rhs).unwrap()
    }
}

impl MulSpecImpl for Isometry {
    open spec fn obeys_mul_spec() -> bool {
        true
    }

    open spec fn mul_req(self, rhs: Isometry) -> bool {
        self.checked_mul(rhs) is Some
    }

    open spec fn mul_spec(self, rhs: Isometry) -> Isometry {
        self.checked_mul(rhs).unwrap()
    }
}

impl core::ops::Mul<Vec3> for Isometry {
    type Output = Vec3;

    fn mul(self, rhs: Vec3) -> (r: Vec3) {
        self.affine().checked_mul_vec(rhs).unwrap()
    }
}

impl MulSpecImpl<Vec3> for Isometry {
    open spec fn obeys_mul_spec() -> bool {
        true
    }

    open spec fn mul_req(self, rhs: Vec3) -> bool {
        self.affine().checked_mul_vec(rhs) is Some
    }

    open spec fn mul_spec(self, rhs: Vec3) -> Vec3 {
        self.affine().checked_mul_vec(rhs).unwrap()
    }
}

impl core::ops::Mul<Pos3> for Isometry {
    type Output = Pos3;

    fn mul(self, rhs: Pos3) -> (r: Pos3) {
        self.affine().checked_mul_pos(rhs).unwrap()
    }
}

impl MulSpecImpl<Pos3> for Isometry {
    open spec fn obeys_mul_spec() -> bool {
        true
    }

    open spec fn mul_req(self, rhs: Pos3) -> bool {
        self.affine().checked_mul_pos(rhs) is Some
    }

    open spec fn mul_spec(self, rhs: Pos3) -> Pos3 {
        self.affine().checked_mul_pos(rhs).unwrap()
    }
}

impl core::ops::Rem<Bounds3> for Isometry {
    type Output = Isometry;

    fn rem(self, rhs: Bounds3) -> (r: Isometry) {
        self.checked_rem(rhs).unwrap()
    }
}

impl RemSpecImpl<Bounds3> for Isometry {
    open spec fn obeys_rem_spec() -> bool {
        true
    }

    open spec fn rem_req(self, rhs: Bounds3) -> bool {
        self.checked_rem(rhs) is Some
    }

    open spec fn rem_spec(self, rhs: Bounds3) -> Isometry {
        self.checked_rem(rhs).unwrap()
    }
}

impl From<i32> for Frac {
    fn from(val: i32) -> (r: Frac) {
        Frac::from_int(val)
    }
}

impl vstd::std_specs::convert::FromSpecImpl<i32> for Frac {
    open spec fn obeys_from_spec() -> bool {
        true
    }

    open spec fn from_spec(val: i32) -> Frac {
        Frac::from_int(val)
    }
}

impl From<u8> for Frac {
    fn from(value: u8) -> (r: Frac) {
        Frac::from_int(value as i32)
    }
}

impl vstd::std_specs::convert::FromSpecImpl<u8> for Frac {
    open spec fn obeys_from_spec() -> bool {
        true
    }

    open spec fn from_spec(value: u8) -> Frac {
        Frac::from_int(value as i32)
    }
}

impl From<i8> for Frac {
    fn from(value: i8) -> (r: Frac) {
        Frac::from_int(value as i32)
    }
}

impl vstd::std_specs::convert::FromSpecImpl<i8> for Frac {
    open spec fn obeys_from_spec() -> bool {
        true
    }

    open spec fn from_spec(value: i8) -> Frac {
        Frac::from_int(value as i32)
    }
}

impl From<u16> for Frac {
    fn from(value: u16) -> (r: Frac) {
        Frac::from_int(value as i32)
    }
}

impl vstd::std_specs::convert::FromSpecImpl<u16> for Frac {
    open spec fn obeys_from_spec() -> bool {
        true
    }

    open spec fn from_spec(value: u16) -> Frac {
        Frac::from_int(value as i32)
    }
}

impl From<i16> for Frac {
    fn from(value: i16) -> (r: Frac) {
        Frac::from_int(value as i32)
    }
}

impl vstd::std_specs::convert::FromSpecImpl<i16> for Frac {
    open spec fn obeys_from_spec() -> bool {
        true
    }

    open spec fn from_spec(value: i16) -> Frac {
        Frac::from_int(value as i32)
    }
}

impl From<[i32; 3]> for Vec3 {
    fn from(value: [i32; 3]) -> (r: Vec3) {
        Vec3 { x: Frac::from_int(value[0]), y: Frac::from_int(value[1]), z: Frac::from_int(value[2]) }
    }
}

impl vstd::std_specs::convert::FromSpecImpl<[i32; 3]> for Vec3 {
    open spec fn obeys_from_spec() -> bool {
        true
    }

    open spec fn from_spec(value: [i32; 3]) -> Vec3 {
        Vec3 { x: Frac::from_int(value@[0]), y: Frac::from_int(value@[1]), z: Frac::from_int(value@[2]) }
    }
}

impl From<[i32; 3]> for Pos3 {
    fn from(value: [i32; 3]) -> (r: Pos3) {
        Pos3 { x: Frac::from_int(value[0]), y: Frac::from_int(value[1]), z: Frac::from_int(value[2]) }
    }
}

impl vstd::std_specs::convert::FromSpecImpl<[i32; 3]> for Pos3 {
    open spec fn obeys_from_spec() -> bool {
        true
    }

    open spec fn from_spec(value: [i32; 3]) -> Pos3 {
        Pos3 { x: Frac::from_int(value@[0]), y: Frac::from_int(value@[1]), z: Frac::from_int(value@[2]) }
    }
}

impl From<(Frac, Frac, Frac)> for Pos3 {
    fn from(value: (Frac, Frac, Frac)) -> (r: Pos3) {
        Pos3 { x: value.0, y: value.1, z: value.2 }
    }
}

impl vstd::std_specs::convert::FromSpecImpl<(Frac, Frac, Frac)> for Pos3 {
    open spec fn obeys_from_spec() -> bool {
        true
    }

    open spec fn from_spec(value: (Frac, Frac, Frac)) -> Pos3 {
        Pos3 { x: value.0, y: value.1, z: value.2 }
    }
}

impl From<Vec3> for Pos3 {
    fn from(value: Vec3) -> (r: Pos3) {
        Pos3 { x: value.x, y: value.y, z: value.z }
    }
}

impl vstd::std_specs::convert::FromSpecImpl<Vec3> for Pos3 {
    open spec fn obeys_from_spec() -> bool {
        true
    }

    open spec fn from_spec(value: Vec3) -> Pos3 {
        Pos3 { x: value.x, y: value.y, z: value.z }
    }
}

impl From<Pos3> for Vec3 {
    fn from(value: Pos3) -> (r: Vec3) {
        Vec3 { x: value.x, y: value.y, z: value.z }
    }
}

impl vstd::std_specs::convert::FromSpecImpl<Pos3> for Vec3 {
    open spec fn obeys_from_spec() -> bool {
        true
    }

    open spec fn from_spec(value: Pos3) -> Vec3 {
        Vec3 { x: value.x, y: value.y, z: value.z }
    }
}

impl From<[i32; 9]> for Mat3 {
    fn from(value: [i32; 9]) -> (r: Mat3) {
        Mat3 {
            m00: Frac::from_int(value[0]),
            m01: Frac::from_int(value[1]),
            m02: Frac::from_int(value[2]),
            m10: Frac::from_int(value[3]),
            m11: Frac::from_int(value[4]),
            m12: Frac::from_int(value[5]),
            m20: Frac::from_int(value[6]),
            m21: Frac::from_int(value[7]),
            m22: Frac::from_int(value[8]),
        }
    }
}

impl vstd::std_specs::convert::FromSpecImpl<[i32; 9]> for Mat3 {
    open spec fn obeys_from_spec() -> bool {
        true
    }

    open spec fn from_spec(value: [i32; 9]) -> Mat3 {
        Mat3 {
            m00: Frac::from_int(value@[0]),
            m01: Frac::from_int(value@[1]),
            m02: Frac::from_int(value@[2]),
            m10: Frac::from_int(value@[3]),
            m11: Frac::from_int(value@[4]),
            m12: Frac::from_int(value@[5]),
            m20: Frac::from_int(value@[6]),
            m21: Frac::from_int(value@[7]),
            m22: Frac::from_int(value@[8]),
        }
    }
}

impl From<Vec3> for Affine3 {
    fn from(value: Vec3) -> (r: Affine3) {
        Affine3 {
            mat: Mat3 {
                m00: Frac::from_int(1i32),
                m01: Frac::from_int(0i32),
                m02: Frac::from_int(0i32),
                m10: Frac::from_int(0i32),
                m11: Frac::from_int(1i32),
                m12: Frac::from_int(0i32),
                m20: Frac::from_int(0i32),
                m21: Frac::from_int(0i32),
                m22: Frac::from_int(1i32),
            },
            translation: value,
        }
    }
}

impl vstd::std_specs::convert::FromSpecImpl<Vec3> for Affine3 {
    open spec fn obeys_from_spec() -> bool {
        true
    }

    open spec fn from_spec(value: Vec3) -> Affine3 {
        Affine3 {
            mat: Mat3 {
                m00: Frac::from_int(1i32),
                m01: Frac::from_int(0i32),
                m02: Frac::from_int(0i32),
                m10: Frac::from_int(0i32),
                m11: Frac::from_int(1i32),
                m12: Frac::from_int(0i32),
                m20: Frac::from_int(0i32),
                m21: Frac::from_int(0i32),
                m22: Frac::from_int(1i32),
            },
            translation: value,
        }
    }
}

impl From<Mat3> for Affine3 {
    fn from(value: Mat3) -> (r: Affine3) {
        Affine3 { mat: value, translation: Vec3 { x: Frac::from_int(0i32), y: Frac::from_int(0i32), z: Frac::from_int(0i32) } }
    }
}

impl vstd::std_specs::convert::FromSpecImpl<Mat3> for Affine3 {
    open spec fn obeys_from_spec() -> bool {
        true
    }

    open spec fn from_spec(value: Mat3) -> Affine3 {
        Affine3 { mat: value, translation: Vec3 { x: Frac::from_int(0i32), y: Frac::from_int(0i32), z: Frac::from_int(0i32) } }
    }
}

impl Default for Frac {
    fn default() -> (r: Frac)
        ensures
            r == Frac::from_int(0i32),
    {
        Frac::from_int(0)
    }
}

} // verus!
