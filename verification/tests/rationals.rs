use scarefire::rational::{rat_add, rat_div, rat_mul, rat_sub, rat_to_fixed, Rat};

#[test]
fn rational_arithmetic_is_exact() {
    let a = Rat::new(3, 4);
    let b = Rat::new(5, 6);
    let m = rat_mul(a, b);
    assert_eq!((m.num, m.den), (15, 24));
    let d = rat_div(a, b);
    assert_eq!((d.num, d.den), (18, 20));
    let s = rat_add(a, b);
    assert_eq!((s.num, s.den), (38, 24));
    let t = rat_sub(a, b);
    assert_eq!((t.num, t.den), (-2, 24));
}

#[test]
fn division_by_negative_keeps_denominator_positive() {
    let a = Rat::new(1, 2);
    let b = Rat::new(-3, 4);
    let d = rat_div(a, b);
    assert!(d.den > 0);
    assert!((d.num as f64 / d.den as f64 + 2.0 / 3.0).abs() < 1e-12);
}

#[test]
fn fixed_point_conversion_truncates_toward_zero() {
    assert_eq!(rat_to_fixed(Rat::new(1, 2)), 0x8000_0000);
    assert_eq!(rat_to_fixed(Rat::new(-1, 2)), -0x8000_0000);
    assert_eq!(rat_to_fixed(Rat::new(1, 3)), 0x1_0000_0000 / 3);
    assert_eq!(rat_to_fixed(Rat::of_int(7)), 7 * 0x1_0000_0000);
}
