use crystallography::frac::{gcd, gcd_u64};
use crystallography::{Error, Frac};

fn frac(text: &str) -> Frac {
    Frac::from_str(text).unwrap()
}

#[test]
fn gcd_test() {
    assert_eq!(gcd(4, 2), 2);
    assert_eq!(gcd(6, 2), 2);
    assert_eq!(gcd(12, 21), 3);
    assert_eq!(gcd(4, -2), 2);
    assert_eq!(gcd(-4, 2), 2);
    assert_eq!(gcd(4, 4), 4);
    assert_eq!(gcd(2, 2), 2);
    assert_eq!(gcd(5, 3), 1);
    assert_eq!(gcd(0, 3), 3);
    assert_eq!(gcd(5, 0), 5);
}

#[test]
fn gcd_of_extremes() {
    assert_eq!(gcd(0, 0), 0);
    assert_eq!(gcd(i32::MIN, 0), 2147483648);
    assert_eq!(gcd(i32::MIN, i32::MIN), 2147483648);
    assert_eq!(gcd(i32::MIN, 6), 2);
    assert_eq!(gcd_u64(u64::MAX, 0), u64::MAX);
    assert_eq!(gcd_u64(48, 18), 6);
}

#[test]
fn normalize_test() {
    assert_eq!(Frac::from_str("1/1").unwrap(), Frac::from_str("2/2").unwrap());
    assert_eq!(Frac::from_str("12/1").unwrap(), Frac::from_str("24/2").unwrap());
    assert_eq!(Frac::from_str("1/-2").unwrap(), Frac::from_str("-1/2").unwrap());
}

#[test]
fn sign_is_carried_by_the_numerator() {
    let a = Frac::new(1, -2);
    assert_eq!(a, Frac::new(-1, 2));
    assert_eq!(a.get_numerator(), -1);
    assert_eq!(a.get_denominator(), 2);
    let b = Frac::new(-6, -4);
    assert_eq!(b.get_numerator(), 3);
    assert_eq!(b.get_denominator(), 2);
    let zero = Frac::new(0, -5);
    assert_eq!(zero.get_numerator(), 0);
    assert_eq!(zero.get_denominator(), 1);
}

#[test]
fn test_addition() {
    assert_eq!(frac("1/2") + frac("1/3"), frac("5/6"));
    assert_eq!(frac("3/4") + frac("1/2"), frac("5/4"));
    assert_eq!(frac("3/4") + frac("-1/2"), frac("1/4"));
}

#[test]
fn test_subtraction() {
    assert_eq!(frac("1/2") - frac("1/3"), frac("1/6"));
    assert_eq!(frac("3/4") - frac("1/2"), frac("1/4"));
}

#[test]
fn test_multiplication() {
    assert_eq!(frac("2/3") * frac("3/4"), frac("1/2"));
    assert_eq!(frac("1/2") * frac("1/3"), frac("1/6"));
}

#[test]
fn test_division() {
    assert_eq!(frac("1/2") / frac("2/3"), frac("3/4"));
    assert_eq!(frac("3/4") / frac("1/2"), frac("3/2"));
}

#[test]
fn test_comparison() {
    let frac1 = Frac::new(1, 2);
    let frac2 = Frac::new(1, 3);
    assert!(frac1 > frac2);
    assert!(frac2 < frac1);
}

#[test]
fn comparison_is_by_value() {
    assert!(Frac::new(-1, 2) < Frac::new(-1, 3));
    assert!(Frac::new(2, 4) <= Frac::new(1, 2));
    assert!(Frac::new(2, 4) >= Frac::new(1, 2));
    assert!(!(Frac::new(1, 2) < Frac::new(1, 2)));
    assert!(Frac::new(1, 2).less_than(&Frac::new(2, 3)));
    assert!(Frac::new(1, 2).less_than_ratio(2, 3));
    assert!(Frac::new(1, 2).exceeds_ratio(1, 3));
    assert!(!Frac::new(1, 2).exceeds_ratio(1, 2));
}

#[test]
fn test_floor_ceil() {
    let frac = Frac::new(1, 2);
    assert_eq!(frac.floor(), 0.into());
    assert_eq!(frac.ceil(), 1.into());

    let frac = Frac::new(-1, 2);
    assert_eq!(frac.floor(), (-1).into());
    assert_eq!(frac.ceil(), 0.into());

    let frac = Frac::new(-3, 2);
    assert_eq!(frac.floor(), (-2).into());
    assert_eq!(frac.ceil(), (-1).into());
}

#[test]
fn floor_ceil_of_whole_numbers_and_extremes() {
    assert_eq!(Frac::new(4, 2).floor(), 2.into());
    assert_eq!(Frac::new(4, 2).ceil(), 2.into());
    assert_eq!(Frac::new(-4, 2).floor(), (-2).into());
    assert_eq!(Frac::new(i32::MIN, 1).floor(), i32::MIN.into());
    assert_eq!(Frac::new(i32::MIN, 1).ceil(), i32::MIN.into());
    assert_eq!(Frac::new(i32::MAX, 2).ceil(), 1073741824.into());
    assert_eq!(Frac::new(i32::MIN + 1, 2).floor(), (-1073741824).into());
}

#[test]
fn frac_test_rem() {
    let result: Frac = Frac::from_str("1/1").unwrap() % Frac::from_str("1/2").unwrap();
    println!("{}", result.to_string());
    assert_eq!(result, 0.into());
    let result: Frac = Frac::from_str("5/8").unwrap() % Frac::from_str("1/4").unwrap();
    assert_eq!(result, Frac::from_str("1/8").unwrap());
    let result: Frac = Frac::from_str("-5/8").unwrap() % Frac::from_str("1/4").unwrap();
    assert_eq!(result, Frac::from_str("1/8").unwrap());
}

#[test]
fn rem_has_the_sign_of_the_divisor() {
    assert_eq!(frac("5/8") % frac("-1/4"), frac("-1/8"));
    assert_eq!(frac("-5/8") % frac("-1/4"), frac("-1/8"));
    assert_eq!(frac("7") % frac("3"), frac("1"));
    assert_eq!(frac("-7") % frac("3"), frac("2"));
    assert_eq!(frac("1/2").checked_rem(frac("0")), None);
}

#[test]
fn add_then_sub_gives_back() {
    let cases = [("1/2", "1/3"), ("-7/5", "22/7"), ("0", "-3"), ("2147483647", "-1")];
    for (a, b) in cases {
        let (a, b) = (frac(a), frac(b));
        assert_eq!((a + b) - b, a);
        assert_eq!(a.checked_add(b).unwrap().checked_sub(b), Some(a));
    }
}

#[test]
fn mul_then_div_gives_back() {
    let cases = [("1/2", "1/3"), ("-7/5", "22/7"), ("0", "-3"), ("46341", "1/46341")];
    for (a, b) in cases {
        let (a, b) = (frac(a), frac(b));
        assert_eq!((a * b) / b, a);
        assert_eq!(a.checked_mul(b).unwrap().checked_div(b), Some(a));
    }
}

#[test]
fn checked_operations_tell_what_cannot_be_stored() {
    let max = Frac::from_int(i32::MAX);
    let min = Frac::from_int(i32::MIN);
    let one = Frac::one();
    assert_eq!(max.checked_add(one), None);
    assert_eq!(min.checked_sub(one), None);
    assert_eq!(max.checked_mul(Frac::from_int(2)), None);
    assert_eq!(one.checked_div(Frac::zero()), None);
    assert_eq!(min.checked_neg(), None);
    assert_eq!(min.abs(), None);
    assert_eq!(Frac::new(1, i32::MAX).checked_div(Frac::from_int(2)), None);
    assert_eq!(max.checked_add(Frac::from_int(-1)), Some(Frac::from_int(i32::MAX - 1)));
    assert_eq!(max.checked_neg(), Some(Frac::from_int(-i32::MAX)));
    assert_eq!(Frac::new(-3, 2).abs(), Some(Frac::new(3, 2)));
    assert_eq!(Frac::new(3, 2).abs(), Some(Frac::new(3, 2)));
    assert_eq!(Frac::new(i32::MIN, 2), Frac::from_int(-1073741824));
}

#[test]
fn checked_new_refuses_zero_denominator_and_overflow() {
    assert_eq!(Frac::checked_new(1, 0), None);
    assert_eq!(Frac::checked_new(0, 0), None);
    assert_eq!(Frac::checked_new(i32::MIN, -1), None);
    assert_eq!(Frac::checked_new(1, i32::MIN), None);
    assert_eq!(Frac::checked_new(i32::MIN, i32::MIN), Some(Frac::one()));
    assert_eq!(Frac::checked_new(i32::MIN, -2), Some(Frac::from_int(1073741824)));
    assert_eq!(Frac::checked_new(6, -4), Some(Frac::new(-3, 2)));
}

#[test]
fn wraps_into_the_cell() {
    assert_eq!(frac("7/2").checked_wrap(1), Some(frac("1/2")));
    assert_eq!(frac("-1/4").checked_wrap(1), Some(frac("3/4")));
    assert_eq!(frac("3").checked_wrap(3), Some(frac("0")));
    assert_eq!(frac("7/2").checked_wrap(0), None);
    assert_eq!(frac("3/4").checked_wrap_centered(1), Some(frac("-1/4")));
    assert_eq!(frac("1/2").checked_wrap_centered(1), Some(frac("1/2")));
    assert_eq!(frac("-1/2").checked_wrap_centered(1), Some(frac("1/2")));
    assert_eq!(frac("2").checked_wrap_centered(3), Some(frac("-1")));
    assert_eq!(frac("2").checked_wrap_centered(-3), None);
}

#[test]
fn dot3_and_minor() {
    let f = Frac::from_int;
    assert_eq!(Frac::dot3(f(1), f(2), f(2), f(3), f(3), f(4)), Some(f(20)));
    assert_eq!(Frac::minor(f(1), f(4), f(2), f(3)), Some(f(-2)));
    assert_eq!(Frac::dot3(f(i32::MAX), f(2), f(0), f(0), f(0), f(0)), None);
    assert_eq!(Frac::minor(f(i32::MAX), f(1), f(-1), f(1)), None);
}

#[test]
fn is_zero_and_is_unit() {
    assert!(frac("0").is_zero());
    assert!(!frac("1/2").is_zero());
    assert!(frac("1").is_unit());
    assert!(frac("-1").is_unit());
    assert!(!frac("1/2").is_unit());
    assert!(!frac("0").is_unit());
}

#[test]
fn parses_integers_and_fractions() {
    assert_eq!(Frac::from_str("7"), Ok(Frac::from_int(7)));
    assert_eq!(Frac::from_str("+7"), Ok(Frac::from_int(7)));
    assert_eq!(Frac::from_str("-7"), Ok(Frac::from_int(-7)));
    assert_eq!(Frac::from_str("007"), Ok(Frac::from_int(7)));
    assert_eq!(Frac::from_str("-2147483648"), Ok(Frac::from_int(i32::MIN)));
    assert_eq!(Frac::from_str("2147483647"), Ok(Frac::from_int(i32::MAX)));
    assert_eq!(Frac::from_str("6/4"), Ok(Frac::new(3, 2)));
    assert_eq!(Frac::from_str("1/2/3"), Ok(Frac::new(1, 2)));
    assert_eq!(Frac::from_str("-0"), Ok(Frac::zero()));
}

#[test]
fn refuses_what_is_no_number() {
    for text in ["", "+", "-", "a", "1a", " 1", "1 ", "1/", "/2", "1/0", "1.5", "2147483648",
        "-2147483649", "99999999999999999999", "1//2", "x/2", "--1", "\u{661}"]
    {
        assert_eq!(Frac::from_str(text), Err(Error::MalformedNumber), "{}", text);
    }
}

#[test]
fn from_integer() {
    let a: Frac = 5.into();
    assert_eq!(a, Frac::new(5, 1));
    assert_eq!(Frac::from(-3), Frac::new(-3, 1));
    assert_eq!(Frac::zero(), Frac::new(0, 1));
    assert_eq!(Frac::one(), Frac::new(1, 1));
}
