use crystallography::text::{append_int, append_nat, parse_int_in};
use crystallography::{Affine3, Frac, Mat3, Pos3, Vec3};

#[test]
fn plain_text_of_fractions() {
    assert_eq!(Frac::new(1, 2).to_string(), "1/2");
    assert_eq!(Frac::new(-1, 2).to_string(), "-1/2");
    assert_eq!(Frac::new(4, 2).to_string(), "2");
    assert_eq!(Frac::new(0, 3).to_string(), "0");
    assert_eq!(Frac::new(i32::MIN, 1).to_string(), "-2147483648");
    assert_eq!(Frac::new(i32::MAX, 10).to_string(), "2147483647/10");
}

#[test]
fn signed_text_of_fractions() {
    assert_eq!(Frac::new(1, 2).as_string_signed(), "+1/2");
    assert_eq!(Frac::new(-1, 2).as_string_signed(), "-1/2");
    assert_eq!(Frac::new(0, 1).as_string_signed(), "0");
    assert_eq!(Frac::new(3, 1).as_string_signed(), "+3");
}

#[test]
fn prefactor_text_of_fractions() {
    assert_eq!(Frac::new(1, 1).as_prefactor(), "");
    assert_eq!(Frac::new(-1, 1).as_prefactor(), "-");
    assert_eq!(Frac::new(2, 1).as_prefactor(), "2");
    assert_eq!(Frac::new(-1, 2).as_prefactor(), "-1/2");
    assert_eq!(Frac::new(1, 1).as_signed_prefactor(), "+");
    assert_eq!(Frac::new(-1, 1).as_signed_prefactor(), "-");
    assert_eq!(Frac::new(2, 1).as_signed_prefactor(), "2");
    assert_eq!(Frac::new(1, 2).as_signed_prefactor(), "1/2");
}

#[test]
fn decimal_text_of_integers() {
    let mut s = String::new();
    append_nat(&mut s, 0);
    append_nat(&mut s, 10);
    append_nat(&mut s, 18446744073709551615);
    append_int(&mut s, -45);
    append_int(&mut s, 45);
    assert_eq!(s, "01018446744073709551615-4545");
}

#[test]
fn reads_integers_inside_a_text() {
    assert_eq!(parse_int_in("ab-12cd", 2, 5), Some(-12));
    assert_eq!(parse_int_in("ab-12cd", 2, 6), None);
    assert_eq!(parse_int_in("ab-12cd", 3, 5), Some(12));
    assert_eq!(parse_int_in("ab-12cd", 3, 3), None);
    assert_eq!(parse_int_in("+", 0, 1), None);
}

#[test]
fn text_of_vectors_and_positions() {
    let v = Vec3::new(Frac::new(1, 2), Frac::new(-3, 1), Frac::new(0, 1));
    assert_eq!(v.to_string(), "[1/2, -3, 0]");
    let p = Pos3::new(Frac::new(1, 3), Frac::new(2, 3), Frac::new(1, 1));
    assert_eq!(p.to_string(), "[1/3, 2/3, 1]");
}

#[test]
fn text_of_affine_maps() {
    assert_eq!(Affine3::identity().to_string(), "x,y,z");
    let mat = Mat3::from_ints([-1, 0, 0, 0, 1, 0, 0, 0, -1]);
    let t = Vec3::new(Frac::new(1, 2), Frac::zero(), Frac::new(-1, 2));
    assert_eq!(Affine3::new(mat, t).to_string(), "-x+1/2,y,-z-1/2");
    let hex = Mat3::from_ints([0, -1, 0, 1, -1, 0, 0, 0, 1]);
    assert_eq!(Affine3::from_mat(hex).to_string(), "-y,x-y,z");
    assert_eq!(hex.to_string(), "-y,x-y,z");
    let shift = Affine3::from_translation(Vec3::from_ints(0, 0, 1));
    assert_eq!(shift.to_string(), "x,y,z+1");
}

#[test]
fn text_of_a_map_with_an_empty_line() {
    let mat = Mat3::from_ints([0, 0, 0, 0, 1, 0, 0, 0, 1]);
    assert_eq!(Affine3::from_mat(mat).to_string(), "y,z");
    let mat = Mat3::from_ints([1, 0, 0, 0, 0, 0, 0, 0, 1]);
    assert_eq!(Affine3::from_mat(mat).to_string(), "x,,z");
    let pure = Affine3::new(Mat3::from_ints([0; 9]), Vec3::from_ints(1, -2, 0));
    assert_eq!(pure.to_string(), "1,-2,");
    let twice = Mat3::from_ints([2, 3, 0, 0, 1, 0, 0, 0, 1]);
    assert_eq!(Affine3::from_mat(twice).to_string(), "2x3y,y,z");
}
