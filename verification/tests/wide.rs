use coronabot::ratio::Ratio;
use coronabot::wide::{gcd_of, widened, Wide};

fn wide(num: i128, den: i128) -> Wide {
    Wide { num, den }
}

fn wide_parts(w: Option<Wide>) -> Option<(i128, i128)> {
    w.map(|x| (x.num, x.den))
}

const MOST: i128 = i128::MAX;

#[test]
fn the_greatest_common_divisor_is_euclids() {
    assert_eq!(gcd_of(12, 18), 6);
    assert_eq!(gcd_of(18, 12), 6);
    assert_eq!(gcd_of(17, 5), 1);
    assert_eq!(gcd_of(0, 5), 5);
    assert_eq!(gcd_of(5, 0), 5);
    assert_eq!(gcd_of(0, 0), 0);
    assert_eq!(gcd_of(u128::MAX, u128::MAX), u128::MAX);
    assert_eq!(gcd_of(u128::MAX, 1), 1);
    assert_eq!(gcd_of(1 << 100, 1 << 60), 1 << 60);
}

#[test]
fn reduce_gives_lowest_terms_with_the_sign_above() {
    let reduced = |num: i128, den: i128| {
        let w = Wide::reduce(num, den);
        (w.num, w.den)
    };
    assert_eq!(reduced(10, 50), (1, 5));
    assert_eq!(reduced(-10, 50), (-1, 5));
    assert_eq!(reduced(0, 50), (0, 1));
    assert_eq!(reduced(7, 1), (7, 1));
    assert_eq!(reduced(1250, 100), (25, 2));
    assert_eq!(reduced(MOST, MOST), (1, 1));
    assert_eq!(reduced(-MOST, MOST), (-1, 1));
    assert_eq!(reduced(MOST, 1), (MOST, 1));
    assert_eq!(reduced(1, MOST), (1, MOST));
}

#[test]
fn wide_fractions_are_computed_in_lowest_terms() {
    let half = wide(1, 2);
    let third = wide(1, 3);
    assert_eq!(wide_parts(half.plus(&third)), Some((5, 6)));
    assert_eq!(wide_parts(half.minus(&third)), Some((1, 6)));
    assert_eq!(wide_parts(third.minus(&half)), Some((-1, 6)));
    assert_eq!(wide_parts(half.times(&third)), Some((1, 6)));
    assert_eq!(wide_parts(half.over(&third)), Some((3, 2)));
    assert_eq!(wide_parts(half.plus(&half)), Some((1, 1)));
    assert_eq!(wide_parts(half.minus(&half)), Some((0, 1)));
    assert_eq!(wide_parts(wide(10, 50).plus(&wide(0, 7))), Some((1, 5)));
    assert_eq!(wide_parts(wide(2, 4).times(&wide(4, 2))), Some((1, 1)));
    let opposite = half.negated();
    assert_eq!((opposite.num, opposite.den), (-1, 2));
}

#[test]
fn a_wide_quotient_carries_its_sign_in_the_numerator() {
    assert_eq!(wide_parts(wide(1, 2).over(&wide(-1, 3))), Some((-3, 2)));
    assert_eq!(wide_parts(wide(-1, 3).over(&wide(-1, 3))), Some((1, 1)));
    assert_eq!(wide_parts(wide(-1, 3).over(&wide(2, 3))), Some((-1, 2)));
}

#[test]
fn a_step_that_does_not_fit_gives_none() {
    let most = wide(MOST, 1);
    let one = wide(1, 1);
    assert_eq!(wide_parts(most.plus(&one)), None);
    assert_eq!(wide_parts(most.minus(&one)), Some((MOST - 1, 1)));
    assert_eq!(wide_parts(most.negated().minus(&one)), None);
    assert_eq!(wide_parts(most.times(&most)), None);
    assert_eq!(wide_parts(most.times(&one)), Some((MOST, 1)));
    let least = wide(1, MOST);
    assert_eq!(wide_parts(least.times(&least)), None);
    assert_eq!(wide_parts(least.plus(&least)), None);
    assert_eq!(wide_parts(one.over(&most)), Some((1, MOST)));
    assert_eq!(wide_parts(most.over(&least)), None);
    // The value would fit in lowest terms, but a step towards it does not.
    assert_eq!(wide_parts(wide(MOST, 2).times(&wide(2, 1))), None);
}

#[test]
fn four_quotients_of_large_counts_add_up() {
    // Denominators near 10^5 without a common divisor: their product is
    // beyond 64 bits.
    let terms = [wide(1, 99_991), wide(1, 99_989), wide(1, 99_971), wide(1, 99_961)];
    let mut sum = Wide::zero();
    for term in &terms {
        sum = sum.plus(term).unwrap();
    }
    let den: i128 = 99_991 * 99_989 * 99_971 * 99_961;
    assert!(den > i64::MAX as i128);
    assert_eq!(sum.den, den);
    assert_eq!(
        sum.num,
        99_989 * 99_971 * 99_961 + 99_991 * 99_971 * 99_961 + 99_991 * 99_989 * 99_961
            + 99_991 * 99_989 * 99_971
    );
}

#[test]
fn a_ratio_is_widened_as_it_is() {
    let w = Wide::from_ratio(&Ratio { num: -2000, den: 100 });
    assert_eq!((w.num, w.den), (-2000, 100));
    let all = widened(&vec![Ratio { num: 1, den: 2 }, Ratio { num: i64::MIN, den: i64::MAX }]);
    assert_eq!(all.len(), 2);
    assert_eq!((all[1].num, all[1].den), (i64::MIN as i128, i64::MAX as i128));
    let zero = Wide::zero();
    assert_eq!((zero.num, zero.den), (0, 1));
    let count = Wide::from_count(u32::MAX);
    assert_eq!((count.num, count.den), (u32::MAX as i128, 1));
}
