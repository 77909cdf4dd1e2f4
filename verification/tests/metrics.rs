use coronabot::expr::parse_expression;
use coronabot::metrics::{
    compute_latest, custom_expression_series, daily_rises, mortality_rate, percent_change,
    positivity, positivity_rate, safe_diff, trailing_new_cases,
};
use coronabot::ratio::Ratio;
use coronabot::record::DailyRecord;

fn day_of_counts(date: u32, positive: u32, total: u32) -> DailyRecord {
    DailyRecord {
        region: None,
        date,
        positive: Some(positive),
        negative: None,
        pending: None,
        hospitalized: None,
        deaths: None,
        total_tests: Some(total),
    }
}

fn as_float(r: &Ratio) -> f64 {
    r.num as f64 / r.den as f64
}

/// Seven days, newest first, with a fall of the positive count on the
/// fourth day.
fn week_with_a_fall() -> Vec<DailyRecord> {
    vec![
        day_of_counts(20200307, 190, 1700),
        day_of_counts(20200306, 160, 1500),
        day_of_counts(20200305, 150, 1200),
        day_of_counts(20200304, 100, 1000),
        day_of_counts(20200303, 120, 900),
        day_of_counts(20200302, 110, 500),
        day_of_counts(20200301, 100, 400),
    ]
}

#[test]
fn percent_change_of_120_over_100_is_20() {
    let change = percent_change(120, 100);
    assert_eq!((change.num, change.den), (2000, 100));
    assert_eq!(as_float(&change), 20.0);
    assert!(change.same_value(&Ratio { num: 20, den: 1 }));
}

#[test]
fn percent_change_from_zero_is_zero() {
    for today in [0u32, 1, 120, u32::MAX] {
        let change = percent_change(today, 0);
        assert_eq!((change.num, change.den), (0, 1));
    }
}

#[test]
fn percent_change_of_a_fall_is_negative() {
    let change = percent_change(80, 100);
    assert_eq!((change.num, change.den), (-2000, 100));
    assert_eq!(as_float(&change), -20.0);
}

#[test]
fn percent_change_of_the_largest_counts_is_exact() {
    let change = percent_change(u32::MAX, 1);
    assert_eq!((change.num, change.den), ((u32::MAX as i64 - 1) * 100, 1));
    let fall = percent_change(0, u32::MAX);
    assert_eq!((fall.num, fall.den), (-(u32::MAX as i64) * 100, u32::MAX as i64));
}

#[test]
fn safe_diff_clamps_a_fall_to_zero() {
    assert_eq!(safe_diff(Some(10), Some(4)), 6);
    assert_eq!(safe_diff(Some(4), Some(10)), 0);
    assert_eq!(safe_diff(Some(7), Some(7)), 0);
    assert_eq!(safe_diff(Some(9), None), 9);
    assert_eq!(safe_diff(None, Some(9)), 0);
    assert_eq!(safe_diff(None, None), 0);
    assert_eq!(safe_diff(Some(u32::MAX), Some(0)), u32::MAX);
    assert_eq!(safe_diff(Some(3_000_000_000), Some(1)), 2_999_999_999);
}

#[test]
fn mortality_rate_is_deaths_in_percent_of_positives() {
    let rate = mortality_rate(30, 1200);
    assert_eq!((rate.num, rate.den), (3000, 1200));
    assert_eq!(as_float(&rate), 2.5);
    let none = mortality_rate(30, 0);
    assert_eq!((none.num, none.den), (0, 1));
}

#[test]
fn trailing_new_cases_clamps_a_fall_and_divides_by_the_window() {
    let averages = trailing_new_cases(&week_with_a_fall(), 5);
    // Days counted from the oldest: 100 110 120 100 150 160 190.
    // Rises: 10 10 0 50 10 30, the fall from 120 to 100 counting as 0.
    assert_eq!(averages.len(), 2);
    assert_eq!((averages[0].num, averages[0].den), (10 + 10 + 0 + 50 + 10, 5));
    assert_eq!((averages[1].num, averages[1].den), (10 + 0 + 50 + 10 + 30, 5));
    assert_eq!(as_float(&averages[0]), 16.0);
    assert_eq!(as_float(&averages[1]), 20.0);
    for average in &averages {
        assert!(average.num >= 0);
        assert_eq!(average.den, 5);
    }
}

#[test]
fn trailing_new_cases_of_a_short_series_is_empty() {
    let week = week_with_a_fall();
    assert_eq!(trailing_new_cases(&week, 7).len(), 0);
    assert_eq!(trailing_new_cases(&week, 0).len(), 0);
    assert_eq!(trailing_new_cases(&Vec::new(), 5).len(), 0);
    let all = trailing_new_cases(&week, 6);
    assert_eq!(all.len(), 1);
    assert_eq!((all[0].num, all[0].den), (110, 6));
    assert_eq!(trailing_new_cases(&week, 1).len(), 6);
}

#[test]
fn trailing_new_cases_counts_an_unreported_day_as_zero() {
    let mut days = week_with_a_fall();
    days[1].positive = None;
    let averages = trailing_new_cases(&days, 2);
    // 100 110 120 100 150 (none) 190: the rise into the gap is 0, the one
    // out of it is 190.
    let last = &averages[averages.len() - 1];
    assert_eq!((last.num, last.den), (190, 2));
}

#[test]
fn positivity_outside_the_plausible_range_is_zero() {
    let high = positivity(73, 100);
    assert_eq!((high.num, high.den), (0, 1));
    let negative = positivity(-5, 100);
    assert_eq!((negative.num, negative.den), (0, 1));
    let just_above = positivity(5001, 10000);
    assert_eq!((just_above.num, just_above.den), (0, 1));
    let no_tests = positivity(5, 0);
    assert_eq!((no_tests.num, no_tests.den), (0, 1));
}

#[test]
fn positivity_within_the_plausible_range_is_kept() {
    let rate = positivity(10, 100);
    assert_eq!((rate.num, rate.den), (1000, 100));
    assert_eq!(as_float(&rate), 10.0);
    let top = positivity(50, 100);
    assert_eq!(as_float(&top), 50.0);
    let zero = positivity(0, 100);
    assert_eq!(as_float(&zero), 0.0);
    let both_fell = positivity(-1, -10);
    assert_eq!((both_fell.num, both_fell.den), (100, 10));
}

#[test]
fn positivity_rate_walks_the_window() {
    let rates = positivity_rate(&week_with_a_fall(), 5);
    assert_eq!(rates.len(), 2);
    // Day 5 against day 0: 60 positives among 1100 tests.
    assert_eq!((rates[0].num, rates[0].den), (6000, 1100));
    // Day 6 against day 1: 80 positives among 1200 tests.
    assert_eq!((rates[1].num, rates[1].den), (8000, 1200));
}

#[test]
fn positivity_rate_gives_an_implausible_day_as_zero() {
    let days = vec![day_of_counts(20200302, 173, 200), day_of_counts(20200301, 100, 100)];
    let rates = positivity_rate(&days, 1);
    // 73 positives among 100 tests.
    assert_eq!(rates.len(), 1);
    assert_eq!((rates[0].num, rates[0].den), (0, 1));
}

#[test]
fn daily_rises_are_clamped_per_count() {
    let rises = daily_rises(&week_with_a_fall());
    assert_eq!(rises.len(), 6);
    let positives: Vec<Option<u32>> = rises.iter().map(|r| r.positive).collect();
    assert_eq!(positives, vec![Some(10), Some(10), Some(0), Some(50), Some(10), Some(30)]);
    assert_eq!(rises[0].date, 20200302);
    assert_eq!(rises[5].date, 20200307);
    assert_eq!(rises[0].total_tests, Some(100));
    assert_eq!(rises[0].negative, Some(0));
    assert!(rises[0].region.is_none());
    assert_eq!(daily_rises(&Vec::new()).len(), 0);
    assert_eq!(daily_rises(&vec![day_of_counts(20200301, 1, 1)]).len(), 0);
}

#[test]
fn custom_series_of_positive_over_total_is_a_fifth() {
    let expr = parse_expression("positive/total").unwrap();
    let days = vec![day_of_counts(20200302, 110, 450), day_of_counts(20200301, 100, 400)];
    // The day added 10 positives and 50 tests.
    let series = custom_expression_series(&days, &expr);
    assert_eq!(series.failures, 0);
    assert_eq!(series.values.len(), 1);
    assert_eq!((series.values[0].num, series.values[0].den), (1, 5));
    assert_eq!(series.values[0].num as f64 / series.values[0].den as f64, 0.2);
}

#[test]
fn custom_series_counts_failures_and_goes_on() {
    let expr = parse_expression("positive/total").unwrap();
    let days = vec![
        day_of_counts(20200304, 130, 500),
        day_of_counts(20200303, 120, 450),
        day_of_counts(20200302, 110, 450),
        day_of_counts(20200301, 100, 400),
    ];
    // The second of the three days added no test: a division by zero.
    let series = custom_expression_series(&days, &expr);
    assert_eq!(series.failures, 1);
    assert_eq!(series.values.len(), 3);
    assert_eq!((series.values[0].num, series.values[0].den), (1, 5));
    assert_eq!((series.values[1].num, series.values[1].den), (0, 1));
    assert_eq!((series.values[2].num, series.values[2].den), (1, 5));
}

#[test]
fn compute_latest_reads_today_and_yesterday() {
    let days = vec![
        DailyRecord {
            region: Some("NY".to_string()),
            date: 20200302,
            positive: Some(1200),
            negative: Some(8800),
            pending: None,
            hospitalized: Some(150),
            deaths: Some(30),
            total_tests: Some(10000),
        },
        DailyRecord {
            region: Some("NY".to_string()),
            date: 20200301,
            positive: Some(1000),
            negative: Some(8000),
            pending: None,
            hospitalized: Some(100),
            deaths: Some(20),
            total_tests: Some(9000),
        },
    ];
    let latest = compute_latest(&days, 1);
    assert_eq!(latest.as_of, 20200302);
    assert_eq!(latest.positive, 1200);
    assert_eq!(latest.negative, 8800);
    assert_eq!(latest.hospitalized, 150);
    assert_eq!(latest.pending, 0);
    assert_eq!(latest.total_tests, 10000);
    assert_eq!((latest.pending_change.num, latest.pending_change.den), (0, 1));
    assert_eq!(
        (latest.total_tests_change.num, latest.total_tests_change.den),
        (100_000, 9000)
    );
    assert_eq!(latest.deaths, 30);
    assert_eq!(latest.tested, 10000);
    assert_eq!(as_float(&latest.positive_change), 20.0);
    assert_eq!(as_float(&latest.negative_change), 10.0);
    assert_eq!(as_float(&latest.hospitalized_change), 50.0);
    assert_eq!(as_float(&latest.deaths_change), 50.0);
    assert_eq!((latest.tested_change.num, latest.tested_change.den), (100_000, 9000));
    assert_eq!(as_float(&latest.mortality_rate), 2.5);
    let average = latest.new_cases_average.unwrap();
    assert_eq!((average.num, average.den), (200, 1));
    let rate = latest.positivity_rate.unwrap();
    assert_eq!((rate.num, rate.den), (20000, 1000));
}

#[test]
fn compute_latest_of_one_day_has_no_change() {
    let days = vec![day_of_counts(20200301, 100, 400)];
    let latest = compute_latest(&days, 5);
    assert_eq!((latest.positive_change.num, latest.positive_change.den), (0, 1));
    assert_eq!((latest.tested_change.num, latest.tested_change.den), (0, 1));
    assert!(latest.new_cases_average.is_none());
    assert!(latest.positivity_rate.is_none());
}

#[test]
fn compute_latest_of_no_record_is_all_zero() {
    let latest = compute_latest(&Vec::new(), 5);
    assert_eq!(latest.as_of, 20200301);
    assert_eq!(
        (latest.positive, latest.negative, latest.pending, latest.hospitalized),
        (0, 0, 0, 0)
    );
    assert_eq!((latest.deaths, latest.total_tests, latest.tested), (0, 0, 0));
    for change in [
        latest.positive_change,
        latest.negative_change,
        latest.pending_change,
        latest.hospitalized_change,
        latest.deaths_change,
        latest.total_tests_change,
        latest.tested_change,
        latest.mortality_rate,
    ] {
        assert_eq!((change.num, change.den), (0, 1));
    }
    assert!(latest.new_cases_average.is_none());
    assert!(latest.positivity_rate.is_none());
}

#[test]
fn compute_latest_with_yesterday_at_zero_has_no_change() {
    let days = vec![day_of_counts(20200302, 50, 400), day_of_counts(20200301, 0, 0)];
    let latest = compute_latest(&days, 5);
    assert_eq!((latest.positive_change.num, latest.positive_change.den), (0, 1));
    assert_eq!((latest.tested_change.num, latest.tested_change.den), (0, 1));
}
