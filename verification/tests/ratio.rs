use coronabot::ratio::{cross, floor_div, Ratio};

fn parts(r: Option<Ratio>) -> Option<(i64, i64)> {
    r.map(|x| (x.num, x.den))
}

#[test]
fn a_ratio_needs_a_positive_denominator() {
    assert_eq!(parts(Ratio::new(1, 5)), Some((1, 5)));
    assert_eq!(parts(Ratio::new(-1, 5)), Some((-1, 5)));
    assert_eq!(parts(Ratio::new(1, 0)), None);
    assert_eq!(parts(Ratio::new(1, -5)), None);
    let zero = Ratio::zero();
    assert_eq!((zero.num, zero.den), (0, 1));
    let count = Ratio::from_count(u32::MAX);
    assert_eq!((count.num, count.den), (u32::MAX as i64, 1));
}

#[test]
fn ratios_compare_by_value() {
    let half = Ratio { num: 1, den: 2 };
    let two_quarters = Ratio { num: 2, den: 4 };
    let third = Ratio { num: 1, den: 3 };
    assert!(half.same_value(&two_quarters));
    assert!(!half.same_value(&third));
    assert!(third.less_than(&half));
    assert!(!half.less_than(&third));
    assert!(!half.less_than(&two_quarters));
    assert!(Ratio { num: -1, den: 2 }.less_than(&Ratio { num: -1, den: 3 }));
    assert!(Ratio { num: i64::MIN, den: 1 }.less_than(&Ratio { num: i64::MAX, den: i64::MAX }));
    assert!(half.is_positive());
    assert!(!Ratio::zero().is_positive());
    assert!(!Ratio { num: -1, den: 2 }.is_positive());
}

#[test]
fn rounding_goes_to_the_nearest_and_ties_to_even() {
    let rounded = |num: i64, den: i64, scale: u16| Ratio { num, den }.rounded_scaled(scale);
    assert_eq!(rounded(7, 3, 1), 2);
    assert_eq!(rounded(8, 3, 1), 3);
    assert_eq!(rounded(-7, 3, 1), -2);
    assert_eq!(rounded(-8, 3, 1), -3);
    assert_eq!(rounded(1, 2, 1), 0);
    assert_eq!(rounded(3, 2, 1), 2);
    assert_eq!(rounded(5, 2, 1), 2);
    assert_eq!(rounded(-1, 2, 1), 0);
    assert_eq!(rounded(-3, 2, 1), -2);
    assert_eq!(rounded(1, 3, 100), 33);
    assert_eq!(rounded(1, 8, 100), 12);
    assert_eq!(rounded(3, 8, 100), 38);
    assert_eq!(rounded(i64::MAX, 1, u16::MAX), i64::MAX as i128 * 65535);
    assert_eq!(rounded(i64::MIN, 1, u16::MAX), i64::MIN as i128 * 65535);
    assert_eq!(rounded(5, 1, 0), 0);
}

#[test]
fn floor_div_rounds_down() {
    assert_eq!(floor_div(7, 2), (3, 1));
    assert_eq!(floor_div(-7, 2), (-4, 1));
    assert_eq!(floor_div(-8, 2), (-4, 0));
    assert_eq!(floor_div(0, 5), (0, 0));
    assert_eq!(floor_div(-1, 5), (-1, 4));
    assert_eq!(cross(i64::MIN, i64::MIN), 1i128 << 126);
    assert_eq!(cross(-3, 4), -12);
}
