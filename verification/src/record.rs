//! One day's counts for one region.

use vstd::prelude::*;

use crate::calendar::{check_day_stamp, is_day_stamp};

verus! {

/// The counts that a record carries.
#[derive(Clone, Copy, Debug, PartialEq, Eq, Structural)]
pub enum Category {
    Positive,
    Negative,
    Pending,
    Hospitalized,
    Deaths,
    TotalTests,
}

/// The cumulative counts reported for one region on one day. A count that
/// the source did not report is `None`. No count is assumed to grow from one
/// day to the next.
#[derive(Debug)]
pub struct DailyRecord {
    /// The region's code; `None` in the national series.
    pub region: Option<String>,
    /// The day, written as the number `YYYYMMDD`.
    pub date: u32,
    pub positive: Option<u32>,
    pub negative: Option<u32>,
    pub pending: Option<u32>,
    pub hospitalized: Option<u32>,
    pub deaths: Option<u32>,
    pub total_tests: Option<u32>,
}

/// The records of one region, the most recent day first, as the source
/// delivers them.
pub type SeriesSnapshot = Vec<DailyRecord>;

/// A count as a number: one that was not reported counts as zero.
pub open spec fn reported(count: Option<u32>) -> int {
    match count {
        Some(n) => n as int,
        None => 0,
    }
}

/// A count as a number: one that was not reported counts as zero.
pub fn reported_or_zero(count: Option<u32>) -> (n: u32)
    ensures
        n == reported(count),
{
    match count {
        Some(n) => n,
        None => 0,
    }
}

impl DailyRecord {
    /// A record is well formed when its date names a calendar day.
    pub open spec fn wf(self) -> bool {
        is_day_stamp(self.date)
    }

    /// The count of one category, as reported.
    pub open spec fn count(self, category: Category) -> Option<u32> {
        match category {
            Category::Positive => self.positive,
            Category::Negative => self.negative,
            Category::Pending => self.pending,
            Category::Hospitalized => self.hospitalized,
            Category::Deaths => self.deaths,
            Category::TotalTests => self.total_tests,
        }
    }

    /// The count of one category, as reported.
    pub fn get(&self, category: Category) -> (count: Option<u32>)
        ensures
            count == self.count(category),
    {
        match category {
            Category::Positive => self.positive,
            Category::Negative => self.negative,
            Category::Pending => self.pending,
            Category::Hospitalized => self.hospitalized,
            Category::Deaths => self.deaths,
            Category::TotalTests => self.total_tests,
        }
    }

    /// Whether the record's date names a calendar day.
    pub fn is_valid(&self) -> (ok: bool)
        ensures
            ok == self.wf(),
    {
        check_day_stamp(self.date)
    }
}

impl Clone for DailyRecord {
    fn clone(&self) -> (copy: DailyRecord)
        ensures
            copy == *self,
    {
        let region = match &self.region {
            Some(code) => Some(code.clone()),
            None => None,
        };
        DailyRecord {
            region,
            date: self.date,
            positive: self.positive,
            negative: self.negative,
            pending: self.pending,
            hospitalized: self.hospitalized,
            deaths: self.deaths,
            total_tests: self.total_tests,
        }
    }
}

/// Every record of the series is well formed.
pub open spec fn series_wf(series: Seq<DailyRecord>) -> bool {
    forall|i: int| 0 <= i < series.len() ==> (#[trigger] series[i]).wf()
}

/// Whether every record of the series is well formed.
pub fn check_series(series: &Vec<DailyRecord>) -> (ok: bool)
    ensures
        ok == series_wf(series@),
{
    let mut i: usize = 0;
    while i < series.len()
        invariant
            i <= series.len(),
            forall|j: int| 0 <= j < i ==> (#[trigger] series@[j]).wf(),
        decreases series.len() - i,
    {
        if !series[i].is_valid() {
            return false;
        }
        i += 1;
    }
    true
}

/// A copy of the series, record by record.
pub fn copy_series(series: &Vec<DailyRecord>) -> (copy: Vec<DailyRecord>)
    ensures
        copy@ == series@,
{
    let mut copy: Vec<DailyRecord> = Vec::new();
    let mut i: usize = 0;
    while i < series.len()
        invariant
            i <= series.len(),
            copy@ == series@.subrange(0, i as int),
        decreases series.len() - i,
    {
        copy.push(series[i].clone());
        assert(series@.subrange(0, i + 1) == series@.subrange(0, i as int).push(series@[i as int]));
        i += 1;
    }
    assert(series@.subrange(0, series.len() as int) == series@);
    copy
}

} // verus!
