//! Metrics derived from a series of daily records.
//!
//! A series holds its most recent day first, as the source delivers it:
//! "today" is the first record and "yesterday" the second. The metrics that
//! walk a series in time count its days from the oldest, with [`day`].

use vstd::prelude::*;

use crate::expr::Expr;
use crate::ratio::{Frac, Ratio};
use crate::record::{reported, reported_or_zero, Category, DailyRecord};
use crate::wide::Wide;

verus! {

/// The rise of a cumulative count from yesterday to today. A fall, which
/// the source is known to report now and then, counts as no rise at all.
pub open spec fn clamped_rise(today: Option<u32>, yesterday: Option<u32>) -> int {
    if reported(today) > reported(yesterday) {
        reported(today) - reported(yesterday)
    } else {
        0
    }
}

/// The rise of a cumulative count from yesterday to today, zero where the
/// count fell.
pub fn safe_diff(today: Option<u32>, yesterday: Option<u32>) -> (diff: u32)
    ensures
        diff == clamped_rise(today, yesterday),
{
    let now = reported_or_zero(today);
    let before = reported_or_zero(yesterday);
    if before < now {
        now - before
    } else {
        0
    }
}

/// The change from `yesterday` to `today` in percent of `yesterday`:
/// `(today - yesterday) / yesterday * 100`, and zero where `yesterday` is
/// zero. A fall gives a negative change.
pub open spec fn percent_change_of(today: int, yesterday: int) -> Frac {
    if yesterday == 0 {
        Frac::whole(0)
    } else {
        Frac { num: (today - yesterday) * 100, den: yesterday }
    }
}

/// The change between two counts of at most 34 bits, in percent of the
/// earlier one.
fn change_between(today: u64, yesterday: u64) -> (change: Ratio)
    requires
        today <= 0x3_ffff_ffff,
        yesterday <= 0x3_ffff_ffff,
    ensures
        change@ == percent_change_of(today as int, yesterday as int),
        change.wf(),
{
    if yesterday == 0 {
        Ratio::zero()
    } else {
        Ratio { num: (today as i64 - yesterday as i64) * 100, den: yesterday as i64 }
    }
}

/// The change from `yesterday` to `today` in percent of `yesterday`, zero
/// where `yesterday` is zero.
pub fn percent_change(today: u32, yesterday: u32) -> (change: Ratio)
    ensures
        change@ == percent_change_of(today as int, yesterday as int),
        change.wf(),
        yesterday == 0 ==> change@ == Frac::whole(0),
{
    change_between(today as u64, yesterday as u64)
}

/// Deaths in percent of positive cases: `deaths / positive * 100`, and zero
/// where there is no positive case.
pub open spec fn mortality_of(deaths: int, positive: int) -> Frac {
    if positive == 0 {
        Frac::whole(0)
    } else {
        Frac { num: deaths * 100, den: positive }
    }
}

/// Deaths in percent of positive cases, zero where there is no positive case.
pub fn mortality_rate(deaths: u32, positive: u32) -> (rate: Ratio)
    ensures
        rate@ == mortality_of(deaths as int, positive as int),
        rate.wf(),
{
    if positive == 0 {
        Ratio::zero()
    } else {
        Ratio { num: deaths as i64 * 100, den: positive as i64 }
    }
}

/// The record of day `k` of a series, its days counted from the oldest.
pub open spec fn day(series: Seq<DailyRecord>, k: int) -> DailyRecord {
    series[series.len() - 1 - k]
}

/// The new positive cases of day `k`: the rise of the cumulative count
/// over the day before, zero where the count fell.
pub open spec fn new_cases_on(series: Seq<DailyRecord>, k: int) -> int {
    clamped_rise(day(series, k).positive, day(series, k - 1).positive)
}

/// The new positive cases of the `window` days that end with day `k`.
pub open spec fn new_cases_in_window(series: Seq<DailyRecord>, k: int, window: int) -> int
    decreases window,
{
    if window <= 0 {
        0
    } else {
        new_cases_in_window(series, k - 1, window - 1) + new_cases_on(series, k)
    }
}

/// The number of days of a series that have `window` days before them.
pub open spec fn windowed_days(series: Seq<DailyRecord>, window: int) -> int {
    if 1 <= window < series.len() {
        series.len() - window
    } else {
        0
    }
}

/// The average of the new positive cases over the `window` days that end
/// with day `k`: their sum, over the window's length.
pub open spec fn new_cases_average(series: Seq<DailyRecord>, k: int, window: int) -> Frac {
    Frac { num: new_cases_in_window(series, k, window), den: window }
}

/// The new positive cases of a window are never negative and never more
/// than each day could add.
pub proof fn lemma_new_cases_bounds(series: Seq<DailyRecord>, k: int, window: int)
    requires
        0 <= window,
    ensures
        0 <= new_cases_in_window(series, k, window) <= window * 0xffff_ffff,
    decreases window,
{
    if window > 0 {
        lemma_new_cases_bounds(series, k - 1, window - 1);
    }
}

/// The new positive cases of the `window` days that end with day `k`.
fn sum_new_cases(series: &Vec<DailyRecord>, k: usize, window: u16) -> (sum: i64)
    requires
        1 <= window <= k < series.len(),
    ensures
        sum == new_cases_in_window(series@, k as int, window as int),
{
    let n = series.len();
    let first = k - window as usize;
    let mut sum: i64 = 0;
    let mut done: u16 = 0;
    while done < window
        invariant
            n == series.len(),
            first == k - window,
            1 <= window <= k < n,
            done <= window,
            sum == new_cases_in_window(series@, first + done, done as int),
        decreases window - done,
    {
        let at = first + done as usize + 1;
        let today = &series[n - 1 - at];
        let yesterday = &series[n - at];
        let rise = safe_diff(today.positive, yesterday.positive);
        proof {
            lemma_new_cases_bounds(series@, first + done, done as int);
        }
        sum = sum + rise as i64;
        done += 1;
    }
    sum
}

/// The trailing average of new positive cases, for each day of the series
/// that has `window` days before it, from the oldest such day on.
///
/// Each day's average is the sum, over the `window` days that end with it,
/// of the day-over-day rise in positive cases, divided by `window`. A day
/// on which the cumulative count fell adds nothing to the sum. A window of
/// zero days has no average: the result is then empty.
pub fn trailing_new_cases(series: &Vec<DailyRecord>, window: u16) -> (averages: Vec<Ratio>)
    ensures
        averages.len() == windowed_days(series@, window as int),
        forall|j: int|
            0 <= j < averages.len() ==> (#[trigger] averages[j])@ == new_cases_average(
                series@,
                j + window,
                window as int,
            ),
        forall|j: int| 0 <= j < averages.len() ==> (#[trigger] averages[j]).wf(),
{
    let mut averages: Vec<Ratio> = Vec::new();
    let n = series.len();
    if window == 0 || n <= window as usize {
        return averages;
    }
    let mut k: usize = window as usize;
    while k < n
        invariant
            n == series.len(),
            1 <= window <= k <= n,
            averages.len() == k - window,
            forall|j: int|
                0 <= j < averages.len() ==> (#[trigger] averages[j])@ == new_cases_average(
                    series@,
                    j + window,
                    window as int,
                ),
            forall|j: int| 0 <= j < averages.len() ==> (#[trigger] averages[j]).wf(),
        decreases n - k,
    {
        let sum = sum_new_cases(series, k, window);
        averages.push(Ratio { num: sum, den: window as i64 });
        k += 1;
    }
    averages
}

/// The share of positive results among a number of tests that is not
/// zero, in percent: `positives / tests * 100`, with the sign carried by
/// the numerator.
pub open spec fn share_of(positives: int, tests: int) -> Frac {
    if tests > 0 {
        Frac { num: positives * 100, den: tests }
    } else {
        Frac { num: -positives * 100, den: -tests }
    }
}

/// A share of positive results is plausible from 0 to 50 percent.
pub open spec fn is_plausible(share: Frac) -> bool {
    Frac::whole(0).le(share) && share.le(Frac::whole(50))
}

/// The share of positive results among the tests of a window, in percent.
/// A share that is not plausible is put down to noise in the source and
/// given as zero, and so is the share of no tests at all.
pub open spec fn positivity_of(positives: int, tests: int) -> Frac {
    if tests != 0 && is_plausible(share_of(positives, tests)) {
        share_of(positives, tests)
    } else {
        Frac::whole(0)
    }
}

/// The positivity rate over the `window` days that end with day `k`: the
/// change in positive cases over the change in total tests.
pub open spec fn positivity_at(series: Seq<DailyRecord>, k: int, window: int) -> Frac {
    positivity_of(
        reported(day(series, k).positive) - reported(day(series, k - window).positive),
        reported(day(series, k).total_tests) - reported(day(series, k - window).total_tests),
    )
}

/// The share of positive results among tests, in percent, zero where it is
/// not within 0 and 50 percent. Both numbers are changes of a count over a
/// window, so each is the difference of two counts of 32 bits.
pub fn positivity(positives: i64, tests: i64) -> (rate: Ratio)
    requires
        -0xffff_ffff <= positives <= 0xffff_ffff,
        -0xffff_ffff <= tests <= 0xffff_ffff,
    ensures
        rate@ == positivity_of(positives as int, tests as int),
        rate.wf(),
        is_plausible(rate@),
{
    if tests > 0 && 0 <= positives && positives * 100 <= 50 * tests {
        Ratio { num: positives * 100, den: tests }
    } else if tests < 0 && positives <= 0 && -positives * 100 <= 50 * -tests {
        Ratio { num: -positives * 100, den: -tests }
    } else {
        Ratio::zero()
    }
}

/// The trailing positivity rate, for each day of the series that has
/// `window` days before it, from the oldest such day on.
pub fn positivity_rate(series: &Vec<DailyRecord>, window: u16) -> (rates: Vec<Ratio>)
    ensures
        rates.len() == windowed_days(series@, window as int),
        forall|j: int|
            0 <= j < rates.len() ==> (#[trigger] rates[j])@ == positivity_at(
                series@,
                j + window,
                window as int,
            ),
        forall|j: int| 0 <= j < rates.len() ==> (#[trigger] rates[j]).wf(),
{
    let mut rates: Vec<Ratio> = Vec::new();
    let n = series.len();
    if window == 0 || n <= window as usize {
        return rates;
    }
    let mut k: usize = window as usize;
    while k < n
        invariant
            n == series.len(),
            1 <= window <= k <= n,
            rates.len() == k - window,
            forall|j: int|
                0 <= j < rates.len() ==> (#[trigger] rates[j])@ == positivity_at(
                    series@,
                    j + window,
                    window as int,
                ),
            forall|j: int| 0 <= j < rates.len() ==> (#[trigger] rates[j]).wf(),
        decreases n - k,
    {
        let last = &series[n - 1 - k];
        let first = &series[n - 1 - (k - window as usize)];
        let positives = reported_or_zero(last.positive) as i64 - reported_or_zero(
            first.positive,
        ) as i64;
        let tests = reported_or_zero(last.total_tests) as i64 - reported_or_zero(
            first.total_tests,
        ) as i64;
        rates.push(positivity(positives, tests));
        k += 1;
    }
    rates
}

/// What one day added to each count over the day before, a fall counting
/// as zero. The record carries the day's date and no region.
pub open spec fn rise_between(today: DailyRecord, yesterday: DailyRecord) -> DailyRecord {
    DailyRecord {
        region: None,
        date: today.date,
        positive: Some(clamped_rise(today.positive, yesterday.positive) as u32),
        negative: Some(clamped_rise(today.negative, yesterday.negative) as u32),
        pending: Some(clamped_rise(today.pending, yesterday.pending) as u32),
        hospitalized: Some(clamped_rise(today.hospitalized, yesterday.hospitalized) as u32),
        deaths: Some(clamped_rise(today.deaths, yesterday.deaths) as u32),
        total_tests: Some(clamped_rise(today.total_tests, yesterday.total_tests) as u32),
    }
}

/// The day-over-day rises of a series, for each day that has a day before
/// it, from the oldest such day on.
pub fn daily_rises(series: &Vec<DailyRecord>) -> (rises: Vec<DailyRecord>)
    ensures
        rises.len() == windowed_days(series@, 1),
        forall|j: int|
            0 <= j < rises.len() ==> #[trigger] rises[j] == rise_between(
                day(series@, j + 1),
                day(series@, j),
            ),
{
    let mut rises: Vec<DailyRecord> = Vec::new();
    let n = series.len();
    if n <= 1 {
        return rises;
    }
    let mut k: usize = 1;
    while k < n
        invariant
            n == series.len(),
            1 <= k <= n,
            rises.len() == k - 1,
            forall|j: int|
                0 <= j < rises.len() ==> #[trigger] rises[j] == rise_between(
                    day(series@, j + 1),
                    day(series@, j),
                ),
        decreases n - k,
    {
        let today = &series[n - 1 - k];
        let yesterday = &series[n - k];
        rises.push(
            DailyRecord {
                region: None,
                date: today.date,
                positive: Some(safe_diff(today.positive, yesterday.positive)),
                negative: Some(safe_diff(today.negative, yesterday.negative)),
                pending: Some(safe_diff(today.pending, yesterday.pending)),
                hospitalized: Some(safe_diff(today.hospitalized, yesterday.hospitalized)),
                deaths: Some(safe_diff(today.deaths, yesterday.deaths)),
                total_tests: Some(safe_diff(today.total_tests, yesterday.total_tests)),
            },
        );
        k += 1;
    }
    rises
}

/// What day `k` of a series added to each count over the day before.
pub open spec fn rise_on(series: Seq<DailyRecord>, k: int) -> DailyRecord {
    rise_between(day(series, k), day(series, k - 1))
}

/// The value of an expression on the rises of one day, zero where the
/// expression has no value there.
pub open spec fn custom_value(expr: Expr, rises: DailyRecord) -> Frac {
    match expr.value(rises) {
        Ok(value) => value,
        Err(_) => Frac::whole(0),
    }
}

/// The number of days, among days 1 to `k` of a series, on whose rises the
/// expression has no value.
pub open spec fn failures_up_to(expr: Expr, series: Seq<DailyRecord>, k: int) -> int
    decreases k,
{
    if k <= 0 {
        0
    } else {
        failures_up_to(expr, series, k - 1) + if expr.value(rise_on(series, k)) is Err {
            1int
        } else {
            0int
        }
    }
}

/// An expression evaluated day by day.
#[derive(Debug)]
pub struct CustomSeries {
    /// The value for each day that has a day before it, from the oldest
    /// such day on; zero for a day on which the evaluation failed.
    pub values: Vec<Wide>,
    /// The number of days on which the evaluation failed.
    pub failures: usize,
}

/// Evaluates an expression on the day-over-day rises of a series.
///
/// Each name in the expression stands for what the day added to that count
/// over the day before, a fall counting as zero. A day on which the
/// expression has no value is given as zero and counted in `failures`; the
/// days after it are evaluated all the same.
pub fn custom_expression_series(series: &Vec<DailyRecord>, expr: &Expr) -> (out: CustomSeries)
    requires
        expr.wf(),
    ensures
        out.values.len() == windowed_days(series@, 1),
        forall|j: int|
            0 <= j < out.values.len() ==> (#[trigger] out.values[j])@ == custom_value(
                *expr,
                rise_on(series@, j + 1),
            ),
        forall|j: int| 0 <= j < out.values.len() ==> (#[trigger] out.values[j]).wf(),
        out.failures == failures_up_to(*expr, series@, series.len() - 1),
{
    let rises = daily_rises(series);
    let mut values: Vec<Wide> = Vec::new();
    let mut failures: usize = 0;
    let mut j: usize = 0;
    while j < rises.len()
        invariant
            expr.wf(),
            rises.len() == windowed_days(series@, 1),
            forall|i: int|
                0 <= i < rises.len() ==> #[trigger] rises[i] == rise_on(series@, i + 1),
            j <= rises.len(),
            values.len() == j,
            forall|i: int|
                0 <= i < j ==> (#[trigger] values[i])@ == custom_value(
                    *expr,
                    rise_on(series@, i + 1),
                ),
            forall|i: int| 0 <= i < j ==> (#[trigger] values[i]).wf(),
            failures == failures_up_to(*expr, series@, j as int),
            failures <= j,
        decreases rises.len() - j,
    {
        assert(rises[j as int] == rise_on(series@, j + 1));
        match expr.eval(&rises[j]) {
            Ok(value) => {
                values.push(value);
            },
            Err(_) => {
                values.push(Wide::zero());
                failures += 1;
            },
        }
        j += 1;
    }
    CustomSeries { values, failures }
}

/// The latest figures of a series and how they changed over the day before.
#[derive(Debug)]
pub struct DerivedMetrics {
    /// The day of the figures, written as the number `YYYYMMDD`.
    pub as_of: u32,
    pub positive: u32,
    pub negative: u32,
    pub pending: u32,
    pub hospitalized: u32,
    pub deaths: u32,
    pub total_tests: u32,
    /// Positive and negative results together.
    pub tested: u64,
    pub positive_change: Ratio,
    pub negative_change: Ratio,
    pub pending_change: Ratio,
    pub hospitalized_change: Ratio,
    pub deaths_change: Ratio,
    pub total_tests_change: Ratio,
    pub tested_change: Ratio,
    pub mortality_rate: Ratio,
    /// The trailing average of new cases at the latest day; `None` where
    /// the series has no full window before it.
    pub new_cases_average: Option<Ratio>,
    /// The trailing positivity rate at the latest day; `None` where the
    /// series has no full window before it.
    pub positivity_rate: Option<Ratio>,
}

/// The day under which the figures of a series without a record are given,
/// written as the number `YYYYMMDD`: the first of March 2020.
pub const NO_RECORD_DAY: u32 = 20200301;

/// Positive and negative results of a record together.
pub open spec fn tested(record: DailyRecord) -> int {
    reported(record.positive) + reported(record.negative)
}

/// The latest figure of one count: that of the first record, and zero for
/// a series without a record.
pub open spec fn figure_of(series: Seq<DailyRecord>, category: Category) -> int {
    if series.len() == 0 {
        0
    } else {
        reported(series[0].count(category))
    }
}

/// The day of the latest figures: that of the first record, and
/// [`NO_RECORD_DAY`] for a series without a record.
pub open spec fn as_of_day(series: Seq<DailyRecord>) -> u32 {
    if series.len() == 0 {
        NO_RECORD_DAY
    } else {
        series[0].date
    }
}

/// The change of one count from yesterday to today, in percent; zero for a
/// series without a yesterday.
pub open spec fn change_of(series: Seq<DailyRecord>, category: Category) -> Frac {
    if series.len() < 2 {
        Frac::whole(0)
    } else {
        percent_change_of(
            reported(series[0].count(category)),
            reported(series[1].count(category)),
        )
    }
}

/// The change of the number tested from yesterday to today, in percent.
pub open spec fn tested_change_of(series: Seq<DailyRecord>) -> Frac {
    if series.len() < 2 {
        Frac::whole(0)
    } else {
        percent_change_of(tested(series[0]), tested(series[1]))
    }
}

/// The view of an optional fraction.
pub open spec fn frac_of(value: Option<Ratio>) -> Option<Frac> {
    match value {
        Some(r) => Some(r@),
        None => None,
    }
}

impl DerivedMetrics {
    /// The figures are those of the first record of `series`, the changes
    /// those from its second record, and the trailing metrics those of its
    /// latest day over `window` days. For a series without a record every
    /// figure and every change is zero.
    pub open spec fn describes(self, series: Seq<DailyRecord>, window: int) -> bool {
        &&& self.as_of == as_of_day(series)
        &&& self.positive == figure_of(series, Category::Positive)
        &&& self.negative == figure_of(series, Category::Negative)
        &&& self.pending == figure_of(series, Category::Pending)
        &&& self.hospitalized == figure_of(series, Category::Hospitalized)
        &&& self.deaths == figure_of(series, Category::Deaths)
        &&& self.total_tests == figure_of(series, Category::TotalTests)
        &&& self.tested == figure_of(series, Category::Positive) + figure_of(
            series,
            Category::Negative,
        )
        &&& self.positive_change@ == change_of(series, Category::Positive)
        &&& self.negative_change@ == change_of(series, Category::Negative)
        &&& self.pending_change@ == change_of(series, Category::Pending)
        &&& self.hospitalized_change@ == change_of(series, Category::Hospitalized)
        &&& self.deaths_change@ == change_of(series, Category::Deaths)
        &&& self.total_tests_change@ == change_of(series, Category::TotalTests)
        &&& self.tested_change@ == tested_change_of(series)
        &&& self.mortality_rate@ == mortality_of(
            figure_of(series, Category::Deaths),
            figure_of(series, Category::Positive),
        )
        &&& frac_of(self.new_cases_average) == (if windowed_days(series, window) > 0 {
            Some(new_cases_average(series, series.len() - 1, window))
        } else {
            None
        })
        &&& frac_of(self.positivity_rate) == (if windowed_days(series, window) > 0 {
            Some(positivity_at(series, series.len() - 1, window))
        } else {
            None
        })
    }

    /// Every fraction among the figures is well formed.
    pub open spec fn wf(self) -> bool {
        &&& self.positive_change.wf()
        &&& self.negative_change.wf()
        &&& self.pending_change.wf()
        &&& self.hospitalized_change.wf()
        &&& self.deaths_change.wf()
        &&& self.total_tests_change.wf()
        &&& self.tested_change.wf()
        &&& self.mortality_rate.wf()
        &&& self.new_cases_average matches Some(r) ==> r.wf()
        &&& self.positivity_rate matches Some(r) ==> r.wf()
    }
}

/// The latest figures of a series: "today" is its first record and
/// "yesterday" its second. A series without a record has every figure at
/// zero, under the day [`NO_RECORD_DAY`].
pub fn compute_latest(series: &Vec<DailyRecord>, window: u16) -> (latest: DerivedMetrics)
    ensures
        latest.describes(series@, window as int),
        latest.wf(),
{
    let n = series.len();
    if n == 0 {
        return DerivedMetrics {
            as_of: NO_RECORD_DAY,
            positive: 0,
            negative: 0,
            pending: 0,
            hospitalized: 0,
            deaths: 0,
            total_tests: 0,
            tested: 0,
            positive_change: Ratio::zero(),
            negative_change: Ratio::zero(),
            pending_change: Ratio::zero(),
            hospitalized_change: Ratio::zero(),
            deaths_change: Ratio::zero(),
            total_tests_change: Ratio::zero(),
            tested_change: Ratio::zero(),
            mortality_rate: Ratio::zero(),
            new_cases_average: None,
            positivity_rate: None,
        };
    }
    let today = &series[0];
    let positive = reported_or_zero(today.positive);
    let negative = reported_or_zero(today.negative);
    let pending = reported_or_zero(today.pending);
    let hospitalized = reported_or_zero(today.hospitalized);
    let deaths = reported_or_zero(today.deaths);
    let total_tests = reported_or_zero(today.total_tests);
    let tested: u64 = positive as u64 + negative as u64;
    let mut positive_change = Ratio::zero();
    let mut negative_change = Ratio::zero();
    let mut pending_change = Ratio::zero();
    let mut hospitalized_change = Ratio::zero();
    let mut deaths_change = Ratio::zero();
    let mut total_tests_change = Ratio::zero();
    let mut tested_change = Ratio::zero();
    if n >= 2 {
        let yesterday = &series[1];
        positive_change = percent_change(positive, reported_or_zero(yesterday.positive));
        negative_change = percent_change(negative, reported_or_zero(yesterday.negative));
        pending_change = percent_change(pending, reported_or_zero(yesterday.pending));
        hospitalized_change =
        percent_change(hospitalized, reported_or_zero(yesterday.hospitalized));
        deaths_change = percent_change(deaths, reported_or_zero(yesterday.deaths));
        total_tests_change =
        percent_change(total_tests, reported_or_zero(yesterday.total_tests));
        tested_change =
        change_between(
            tested,
            reported_or_zero(yesterday.positive) as u64 + reported_or_zero(
                yesterday.negative,
            ) as u64,
        );
    }
    let mut new_cases_average: Option<Ratio> = None;
    let mut positivity_rate: Option<Ratio> = None;
    if window >= 1 && (window as usize) < n {
        let sum = sum_new_cases(series, n - 1, window);
        new_cases_average = Some(Ratio { num: sum, den: window as i64 });
        let first = &series[window as usize];
        positivity_rate =
        Some(
            positivity(
                positive as i64 - reported_or_zero(first.positive) as i64,
                total_tests as i64 - reported_or_zero(first.total_tests) as i64,
            ),
        );
    }
    DerivedMetrics {
        as_of: today.date,
        positive,
        negative,
        pending,
        hospitalized,
        deaths,
        total_tests,
        tested,
        positive_change,
        negative_change,
        pending_change,
        hospitalized_change,
        deaths_change,
        total_tests_change,
        tested_change,
        mortality_rate: mortality_rate(deaths, positive),
        new_cases_average,
        positivity_rate,
    }
}

/// Where yesterday's count is zero, or was not reported, the change of a
/// series of two days is zero, whatever today's count is.
pub proof fn lemma_change_from_zero(series: Seq<DailyRecord>, category: Category)
    requires
        series.len() == 2,
        reported(series[1].count(category)) == 0,
    ensures
        change_of(series, category) == Frac::whole(0),
{
}

/// A day on which the cumulative count fell adds nothing to a trailing
/// average: no day adds less than zero, and the average is the sum of what
/// the days of the window add, over the length of the window and nothing
/// else.
pub proof fn lemma_average_is_clamped(series: Seq<DailyRecord>, k: int, window: int)
    requires
        1 <= window,
    ensures
        new_cases_on(series, k) >= 0,
        reported(day(series, k).positive) <= reported(day(series, k - 1).positive)
            ==> new_cases_on(series, k) == 0,
        new_cases_in_window(series, k, window) == new_cases_in_window(series, k - 1, window - 1)
            + new_cases_on(series, k),
        new_cases_average(series, k, window).num >= 0,
        new_cases_average(series, k, window).den == window,
{
    lemma_new_cases_bounds(series, k, window);
}

/// A share of positive results that is below 0 or above 50 percent is
/// given as zero, so every rate is plausible.
pub proof fn lemma_implausible_rate_is_zero(positives: int, tests: int)
    ensures
        tests != 0 && !is_plausible(share_of(positives, tests)) ==> positivity_of(positives, tests)
            == Frac::whole(0),
        is_plausible(positivity_of(positives, tests)),
{
}

} // verus!
