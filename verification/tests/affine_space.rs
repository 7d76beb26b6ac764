use crystallography::{Affine3, Bounds3, Frac, Mat3, Pos3, Vec3};

#[test]
fn test_vec3_dot() {
    let vec1 = Vec3::new(1.into(), 2.into(), 3.into());
    let vec2 = Vec3::new(2.into(), 3.into(), 4.into());
    assert_eq!(vec1.dot(&vec2).unwrap(), (1 * 2 + 2 * 3 + 3 * 4).into());
}

#[test]
fn test_mat3_from_columns() {
    let vec1 = Vec3::new(1.into(), 2.into(), 3.into());
    let vec2 = Vec3::new(4.into(), 5.into(), 6.into());
    let vec3 = Vec3::new(7.into(), 8.into(), 9.into());
    let mat = Mat3::from_columns(vec1, vec2, vec3);
    assert_eq!(mat.m00, 1.into());
    assert_eq!(mat.m10, 2.into());
    assert_eq!(mat.m20, 3.into());
    assert_eq!(mat, Mat3::from_ints([1, 4, 7, 2, 5, 8, 3, 6, 9]));
}

#[test]
fn test_mat3_determinant() {
    let mat = Mat3::from_ints([1, 2, 3, 4, 5, 6, 7, 8, 9]);
    assert_eq!(
        mat.determinant().unwrap(),
        (1 * 5 * 9 - 1 * 6 * 8 - 2 * 4 * 9 + 2 * 6 * 7 + 3 * 4 * 8 - 3 * 5 * 7).into()
    );
}

#[test]
fn test_mat3_mul() {
    let mat = Mat3::from_ints([9, 8, 7, 6, 5, 4, 3, 2, 1]);
    let other = Mat3::from_ints([1, 0, 0, 0, 1, 0, 0, 0, 1]);
    assert_eq!(other * mat, mat);
    assert_eq!(mat * other, mat);

    let other = Mat3::from_ints([0, 1, 0, 1, 0, 0, 0, 0, 1]);
    assert_eq!(other * mat, Mat3::from_ints([6, 5, 4, 9, 8, 7, 3, 2, 1]));
    assert_eq!(mat * other, Mat3::from_ints([8, 9, 7, 5, 6, 4, 2, 3, 1]));

    let other = Mat3::from_ints([1, 0, 0, 0, 0, 1, 0, 1, 0]);
    assert_eq!(other * mat, Mat3::from_ints([9, 8, 7, 3, 2, 1, 6, 5, 4]));
    assert_eq!(mat * other, Mat3::from_ints([9, 7, 8, 6, 4, 5, 3, 1, 2]))
}

#[test]
fn test_inverse_mat() {
    let mat = Mat3::from_ints([1, 4, 4, 5, 2, 5, 3, 2, 5]);
    assert_eq!(Mat3::identity(), mat * mat.inverse().unwrap());
    let mut mat = Mat3::from_ints([1, 4, 4, 5, 2, 3, 0, 1, 5]);
    mat.m20 = Frac::new(1, 2);
    assert_eq!(Mat3::identity(), mat * mat.inverse().unwrap());
    let mat: Mat3 = [1, 4, 4, 5, 2, 5, 0, 0, 0].into();
    assert!(mat.inverse().is_none());
}

#[test]
fn test_inverse_affine() {
    let mat = [1, 4, 4, 5, 2, 5, 3, 2, 5].into();
    let translation = [1, 2, 0].into();
    let affine = Affine3::new(mat, translation);
    let inverse = affine.inverse().unwrap();
    assert_eq!(Affine3::identity(), affine * inverse);
    assert_eq!(Affine3::identity(), inverse * affine);
    let pos: Pos3 = [1, 0, 1].into();
    assert_eq!(pos, inverse * (affine * pos));
    let vec: Vec3 = [11, 12, 2].into();
    assert_eq!(vec, inverse * (affine * vec));
}

#[test]
fn affine_space_test_rem() {
    let super_cell: Bounds3 = Bounds3::new(3, 2, 1);
    assert_eq!(Pos3::origin(), Pos3::new(3.into(), 2.into(), 1.into()) % super_cell);
    assert_eq!(
        Pos3::new(2.into(), 0.into(), 0.into()),
        Pos3::new(2.into(), 2.into(), 1.into()) % super_cell
    );
    assert_eq!(
        Vec3::new((-1).into(), 1.into(), 0.into()),
        Vec3::new(2.into(), 1.into(), 1.into()) % super_cell
    );
}

#[test]
fn contains_test() {
    let bounds: Bounds3 = Bounds3::new(1, 4, 5);
    let mut vec: Vec3 = [2, 4, 4].into();
    assert!(bounds.contains_vec(vec % bounds));
    vec = vec / Frac::new(2, 1);
    assert!(bounds.contains_vec(vec % bounds));
    vec = vec / Frac::new(3, 1);
    assert!(bounds.contains_vec(vec % bounds));
}

#[test]
fn reduction_is_idempotent_and_in_range() {
    let bounds = Bounds3::new(3, 2, 1);
    let samples = [
        (Frac::new(7, 2), Frac::new(-5, 3), Frac::new(1, 2)),
        (Frac::new(-7, 2), Frac::new(2, 1), Frac::new(-1, 2)),
        (Frac::new(3, 2), Frac::new(1, 1), Frac::new(1, 4)),
        (Frac::new(-3, 2), Frac::new(-1, 1), Frac::new(3, 4)),
        (Frac::new(0, 1), Frac::new(100, 7), Frac::new(-100, 7)),
    ];
    for (x, y, z) in samples {
        let p = Pos3::new(x, y, z) % bounds;
        assert!(bounds.contains_pos(p));
        assert_eq!(p % bounds, p);
        let v = Vec3::new(x, y, z) % bounds;
        assert!(bounds.contains_vec(v));
        assert_eq!(v % bounds, v);
    }
}

#[test]
fn reduction_of_a_vector_is_centered() {
    let bounds = Bounds3::new(3, 2, 1);
    let v = Vec3::new(Frac::new(3, 2), Frac::new(1, 1), Frac::new(1, 2)) % bounds;
    assert_eq!(v, Vec3::new(Frac::new(3, 2), Frac::new(1, 1), Frac::new(1, 2)));
    let v = Vec3::new(Frac::new(-3, 2), Frac::new(-1, 1), Frac::new(-1, 2)) % bounds;
    assert_eq!(v, Vec3::new(Frac::new(3, 2), Frac::new(1, 1), Frac::new(1, 2)));
    let v = Vec3::new(Frac::new(8, 5), Frac::new(11, 10), Frac::new(3, 5)) % bounds;
    assert_eq!(v, Vec3::new(Frac::new(-7, 5), Frac::new(-9, 10), Frac::new(-2, 5)));
}

#[test]
fn bounds_and_their_volume() {
    let b = Bounds3::new(3, 2, 1);
    assert_eq!((b.x(), b.y(), b.z()), (3, 2, 1));
    assert_eq!(b.volume(), Some(6));
    assert_eq!(Bounds3::splat(4).volume(), Some(64));
    assert_eq!(Bounds3::unit().volume(), Some(1));
    assert_eq!(Bounds3::splat(1291).volume(), None);
    assert_eq!(Bounds3::splat(1290).volume(), Some(2146689000));
    assert_eq!(Bounds3::new(i32::MAX, 1, 1).volume(), Some(i32::MAX));
    assert_eq!(Bounds3::new(i32::MAX, 2, 1).volume(), None);
    assert!(b.contains_arr(&[2, 1, 0]));
    assert!(!b.contains_arr(&[3, 1, 0]));
    assert!(!b.contains_arr(&[0, -1, 0]));
    assert!(!b.contains_arr(&[0, 0, 1]));
}

#[test]
fn bounds_contain_what_is_reduced() {
    let b = Bounds3::new(3, 2, 1);
    assert!(b.contains_pos(Pos3::from_ints(2, 1, 0)));
    assert!(!b.contains_pos(Pos3::from_ints(3, 1, 0)));
    assert!(!b.contains_pos(Pos3::new(Frac::new(-1, 2), 0.into(), 0.into())));
    assert!(b.contains_vec(Vec3::new(Frac::new(3, 2), 1.into(), Frac::new(1, 2))));
    assert!(!b.contains_vec(Vec3::new(Frac::new(-3, 2), 0.into(), 0.into())));
    assert!(b.contains_vec(Vec3::new(Frac::new(-7, 5), Frac::new(-1, 2), 0.into())));
}

#[test]
fn vector_arithmetic() {
    let a = Vec3::from_ints(1, 2, 3);
    let b = Vec3::new(Frac::new(1, 2), Frac::new(1, 3), Frac::new(1, 4));
    assert_eq!(a + b, Vec3::new(Frac::new(3, 2), Frac::new(7, 3), Frac::new(13, 4)));
    assert_eq!(a - b, Vec3::new(Frac::new(1, 2), Frac::new(5, 3), Frac::new(11, 4)));
    assert_eq!(-a, Vec3::from_ints(-1, -2, -3));
    assert_eq!(a * Frac::new(1, 2), Vec3::new(Frac::new(1, 2), 1.into(), Frac::new(3, 2)));
    assert_eq!(Frac::new(1, 2) * a, a * Frac::new(1, 2));
    assert_eq!(a / Frac::new(2, 1), a * Frac::new(1, 2));
    assert_eq!(a.checked_div(Frac::zero()), None);
    assert_eq!(a.norm_sq(), Some(14.into()));
    assert_eq!(Vec3::splat(2.into()), Vec3::from_ints(2, 2, 2));
    assert_eq!(Vec3::zero(), Vec3::from_ints(0, 0, 0));
    let p = Pos3::from_ints(1, 1, 1);
    assert_eq!(p + a, Pos3::from_ints(2, 3, 4));
    assert_eq!(a + p, Pos3::from_ints(2, 3, 4));
    assert_eq!(Pos3::from_ints(2, 3, 4) - p, a);
    assert_eq!(Pos3::splat(1.into()), p);
    assert_eq!(a.to_pos(), Pos3::from_ints(1, 2, 3));
    assert_eq!(p.to_vec(), Vec3::from_ints(1, 1, 1));
    assert_eq!(Vec3::from_ints(i32::MAX, 0, 0).checked_add(Vec3::from_ints(1, 0, 0)), None);
}

#[test]
fn matrix_functions() {
    let mat = Mat3::from_ints([1, 4, 4, 5, 2, 5, 3, 2, 5]);
    assert_eq!(mat.determinant(), Some((-24).into()));
    assert_eq!(mat.transpose(), Mat3::from_ints([1, 5, 3, 4, 2, 2, 4, 5, 5]));
    assert_eq!(mat.cofactor(), Some(Mat3::from_ints([0, -10, 4, -12, -7, 10, 12, 15, -18])));
    assert_eq!(mat.adjoint(), Some(Mat3::from_ints([0, -12, 12, -10, -7, 15, 4, 10, -18])));
    assert_eq!(mat.is_invertible(), Some(true));
    assert_eq!(mat.is_orthogonal(), Some(false));
    let turn = Mat3::from_ints([0, -1, 0, 1, 0, 0, 0, 0, 1]);
    assert_eq!(turn.is_orthogonal(), Some(true));
    assert_eq!(turn.inverse(), Some(turn.transpose()));
    let flat = Mat3::from_ints([1, 2, 3, 2, 4, 6, 0, 0, 1]);
    assert_eq!(flat.determinant(), Some(0.into()));
    assert_eq!(flat.is_invertible(), Some(false));
    assert_eq!(flat.inverse(), None);
    assert_eq!(mat * Vec3::from_ints(1, 0, 1), Vec3::from_ints(5, 10, 8));
    assert_eq!(mat * Pos3::from_ints(1, 0, 1), Pos3::from_ints(5, 10, 8));
    assert_eq!(mat * Frac::new(1, 2), Frac::new(1, 2) * mat);
    assert_eq!(
        (mat * Frac::new(2, 1)),
        Mat3::from_ints([2, 8, 8, 10, 4, 10, 6, 4, 10])
    );
    let big = Mat3::from_ints([i32::MAX, 0, 0, 0, i32::MAX, 0, 0, 0, 1]);
    assert_eq!(big.determinant(), None);
    assert_eq!(big.is_invertible(), None);
    assert_eq!(big.checked_mul(big), None);
}

#[test]
fn affine_maps_compose_and_apply() {
    let turn = Mat3::from_ints([0, -1, 0, 1, 0, 0, 0, 0, 1]);
    let a = Affine3::new(turn, Vec3::new(Frac::new(1, 2), 0.into(), 0.into()));
    let b = Affine3::from_translation(Vec3::from_ints(0, 1, 0));
    let ab = a * b;
    assert_eq!(ab.mat(), turn);
    assert_eq!(ab.translation(), Vec3::new(Frac::new(-1, 2), 0.into(), 0.into()));
    let p = Pos3::from_ints(1, 2, 3);
    assert_eq!(ab * p, a * (b * p));
    assert_eq!(a * p, Pos3::new(Frac::new(-3, 2), 1.into(), 3.into()));
    assert_eq!(a * Vec3::from_ints(1, 2, 3), Vec3::from_ints(-2, 1, 3));
    assert_eq!(a.mat_determinant(), Some(1.into()));
    assert_eq!(a.is_invertible(), Some(true));
    assert_eq!(Affine3::from_mat(Mat3::from_ints([0; 9])).inverse(), None);
    assert_eq!(Affine3::from_mat(turn).translation(), Vec3::zero());
    let shifted = Affine3::new(turn, Vec3::new(Frac::new(7, 4), Frac::new(-1, 2), 2.into()));
    let reduced = shifted % Bounds3::unit();
    assert_eq!(reduced.mat(), turn);
    assert_eq!(reduced.translation(), Vec3::new(Frac::new(-1, 4), Frac::new(1, 2), 0.into()));
}

#[test]
fn conversions() {
    let v: Vec3 = [1, -2, 3].into();
    assert_eq!(v, Vec3::from_ints(1, -2, 3));
    let p: Pos3 = v.into();
    assert_eq!(p, Pos3::from_ints(1, -2, 3));
    let back: Vec3 = p.into();
    assert_eq!(back, v);
    let q: Pos3 = (Frac::new(1, 2), Frac::new(1, 3), Frac::new(1, 4)).into();
    assert_eq!(q, Pos3::new(Frac::new(1, 2), Frac::new(1, 3), Frac::new(1, 4)));
    let m: Mat3 = [1, 2, 3, 4, 5, 6, 7, 8, 9].into();
    assert_eq!((m.m01, m.m10, m.m22), (2.into(), 4.into(), 9.into()));
    let a: Affine3 = v.into();
    assert_eq!(a, Affine3::from_translation(v));
    let b: Affine3 = m.into();
    assert_eq!(b, Affine3::from_mat(m));
    let small: Frac = 7u8.into();
    assert_eq!(small, Frac::new(7, 1));
    assert_eq!(Frac::from(-7i8), Frac::new(-7, 1));
    assert_eq!(Frac::from(65535u16), Frac::new(65535, 1));
    assert_eq!(Frac::from(-32768i16), Frac::new(-32768, 1));
    assert_eq!(Frac::default(), Frac::zero());
}
