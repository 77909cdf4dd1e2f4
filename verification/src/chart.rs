//! What a chart renderer is given, and what is made of its answer.
//!
//! The library prepares the data of a chart and the names under which the
//! image is stored. Drawing and storing are done by the program around it,
//! which reports the outcome back.

use vstd::prelude::*;
use vstd::string::StringExecFns;

use crate::calendar::{stamp_of, timestamp_of};
use crate::expr::{parse_expression, parsed, Expr};
use crate::lexer::ExprError;
use crate::outside::fresh_id;
use crate::metrics::{
    custom_expression_series, custom_value, day, failures_up_to, new_cases_average,
    positivity_at, positivity_rate, rise_on, trailing_new_cases, windowed_days,
};
use crate::ratio::Frac;
use crate::wide::{widened, Wide};
use crate::record::{series_wf, DailyRecord};
use crate::text::{decimal, push_decimal};

verus! {

/// The number of days of the trailing window of the charts.
pub const TRAILING_WINDOW: u16 = 5;

/// A line chart over time: one series of values, or two that share the
/// time axis.
#[derive(Debug)]
pub struct ChartRequest {
    pub title: String,
    /// The time of each point, in seconds since 1970-01-01 00:00:00 UTC.
    pub x: Vec<i64>,
    /// The values drawn against the left axis.
    pub y1: Vec<Wide>,
    /// The values drawn against the right axis; empty for a chart of one
    /// series.
    pub y2: Vec<Wide>,
    pub x_label: String,
    pub y1_label: String,
    pub y2_label: String,
}

impl ChartRequest {
    /// The series are aligned with the time axis and hold well-formed
    /// fractions.
    pub open spec fn wf(self) -> bool {
        &&& self.y1.len() == self.x.len()
        &&& self.y2.len() == self.x.len() || self.y2.len() == 0
        &&& forall|i: int| 0 <= i < self.y1.len() ==> (#[trigger] self.y1[i]).wf()
        &&& forall|i: int| 0 <= i < self.y2.len() ==> (#[trigger] self.y2[i]).wf()
    }
}

/// The midnights of the days of a series from day `from` on, its days
/// counted from the oldest.
pub fn day_timestamps(series: &Vec<DailyRecord>, from: usize) -> (stamps: Vec<i64>)
    requires
        series_wf(series@),
    ensures
        stamps.len() == (if from < series.len() {
            series.len() - from
        } else {
            0
        }),
        forall|j: int|
            0 <= j < stamps.len() ==> #[trigger] stamps[j] == stamp_of(day(series@, j + from).date),
{
    let mut stamps: Vec<i64> = Vec::new();
    let n = series.len();
    if from >= n {
        return stamps;
    }
    let mut k: usize = from;
    while k < n
        invariant
            n == series.len(),
            series_wf(series@),
            from <= k <= n,
            stamps.len() == k - from,
            forall|j: int|
                0 <= j < stamps.len() ==> #[trigger] stamps[j] == stamp_of(
                    day(series@, j + from).date,
                ),
        decreases n - k,
    {
        let record = &series[n - 1 - k];
        assert(series@[n - 1 - k].wf());
        stamps.push(timestamp_of(record.date));
        k += 1;
    }
    stamps
}

/// `chart` is the chart of new cases of `series` under `title`: for each
/// day that has a full window before it, from the oldest such day on, the
/// trailing average of new positive cases against the left axis and the
/// trailing positivity rate against the right one.
pub open spec fn is_new_cases_chart(chart: ChartRequest, series: Seq<DailyRecord>, title: Seq<char>) -> bool {
    &&& chart.wf()
    &&& chart.title@ == title
    &&& chart.x_label@ == ""@
    &&& chart.y1_label@ == "Positives"@
    &&& chart.y2_label@ == "% Positive (trailing 5 days)"@
    &&& chart.x.len() == windowed_days(series, TRAILING_WINDOW as int)
    &&& chart.y2.len() == chart.x.len()
    &&& forall|j: int|
        0 <= j < chart.x.len() ==> {
            &&& #[trigger] chart.x[j] == stamp_of(day(series, j + TRAILING_WINDOW).date)
            &&& chart.y1[j]@ == new_cases_average(
                series,
                j + TRAILING_WINDOW,
                TRAILING_WINDOW as int,
            )
            &&& chart.y2[j]@ == positivity_at(series, j + TRAILING_WINDOW, TRAILING_WINDOW as int)
        }
}

/// The chart of new cases of a series.
pub fn generate_new_cases_chart(series: &Vec<DailyRecord>, title: &str) -> (chart: ChartRequest)
    requires
        series_wf(series@),
    ensures
        is_new_cases_chart(chart, series@, title@),
{
    ChartRequest {
        title: String::from_str(title),
        x: day_timestamps(series, TRAILING_WINDOW as usize),
        y1: widened(&trailing_new_cases(series, TRAILING_WINDOW)),
        y2: widened(&positivity_rate(series, TRAILING_WINDOW)),
        x_label: String::from_str(""),
        y1_label: String::from_str("Positives"),
        y2_label: String::from_str("% Positive (trailing 5 days)"),
    }
}

/// A chart of an expression, and the number of days on which the
/// expression had no value.
#[derive(Debug)]
pub struct CustomChart {
    pub chart: ChartRequest,
    pub failures: usize,
    /// Why the text wrote no expression, where it wrote none.
    pub unreadable: Option<ExprError>,
}

/// The value of what a text writes on the rises of one day: that of the
/// expression, and zero where the expression has no value there or the
/// text writes no expression at all.
pub open spec fn custom_point(reading: Result<Expr, ExprError>, rises: DailyRecord) -> Frac {
    match reading {
        Ok(expr) => custom_value(expr, rises),
        Err(_) => Frac::whole(0),
    }
}

/// The number of days of a series on which what a text writes has no
/// value: for a text that writes no expression, every day that has a day
/// before it.
pub open spec fn custom_failures(reading: Result<Expr, ExprError>, series: Seq<DailyRecord>) -> int {
    match reading {
        Ok(expr) => failures_up_to(expr, series, series.len() - 1),
        Err(_) => windowed_days(series, 1),
    }
}

/// Why a text wrote no expression, where it wrote none.
pub open spec fn unreadable_of(reading: Result<Expr, ExprError>) -> Option<ExprError> {
    match reading {
        Ok(_) => None,
        Err(e) => Some(e),
    }
}

/// `custom` is the chart of what a text writes, on `series`, under `title`
/// and with `label` at the left axis: for each day that has a day before
/// it, from the oldest such day on, the value of the expression on what
/// the day added to each count, zero where it has no value; and the number
/// of the days on which it has none. A text that writes no expression has
/// no value on any day.
pub open spec fn is_custom_chart(
    custom: CustomChart,
    series: Seq<DailyRecord>,
    title: Seq<char>,
    label: Seq<char>,
    reading: Result<Expr, ExprError>,
) -> bool {
    &&& custom.chart.wf()
    &&& custom.chart.title@ == title
    &&& custom.chart.x_label@ == ""@
    &&& custom.chart.y1_label@ == label
    &&& custom.chart.y2_label@ == ""@
    &&& custom.chart.x.len() == windowed_days(series, 1)
    &&& custom.chart.y2.len() == 0
    &&& forall|j: int|
        0 <= j < custom.chart.x.len() ==> {
            &&& #[trigger] custom.chart.x[j] == stamp_of(day(series, j + 1).date)
            &&& custom.chart.y1[j]@ == custom_point(reading, rise_on(series, j + 1))
        }
    &&& custom.failures == custom_failures(reading, series)
    &&& custom.unreadable == unreadable_of(reading)
}

/// The chart of an expression on a series.
pub fn chart_of_expression(
    series: &Vec<DailyRecord>,
    title: &str,
    label: &str,
    expr: &Expr,
) -> (custom: CustomChart)
    requires
        series_wf(series@),
        expr.wf(),
    ensures
        is_custom_chart(custom, series@, title@, label@, Ok(*expr)),
{
    let evaluated = custom_expression_series(series, expr);
    CustomChart {
        chart: ChartRequest {
            title: String::from_str(title),
            x: day_timestamps(series, 1),
            y1: evaluated.values,
            y2: Vec::new(),
            x_label: String::from_str(""),
            y1_label: String::from_str(label),
            y2_label: String::from_str(""),
        },
        failures: evaluated.failures,
        unreadable: None,
    }
}

/// The chart of a text that writes no expression: a zero for each day that
/// has a day before it, and each of these days counted as a failure.
pub fn chart_of_nothing(
    series: &Vec<DailyRecord>,
    title: &str,
    label: &str,
    error: ExprError,
) -> (custom: CustomChart)
    requires
        series_wf(series@),
    ensures
        is_custom_chart(custom, series@, title@, label@, Err(error)),
{
    let x = day_timestamps(series, 1);
    let mut y1: Vec<Wide> = Vec::new();
    let mut j: usize = 0;
    while j < x.len()
        invariant
            j <= x.len(),
            y1.len() == j,
            forall|i: int| 0 <= i < j ==> (#[trigger] y1[i])@ == Frac::whole(0),
            forall|i: int| 0 <= i < j ==> (#[trigger] y1[i]).wf(),
        decreases x.len() - j,
    {
        y1.push(Wide::zero());
        j += 1;
    }
    CustomChart {
        chart: ChartRequest {
            title: String::from_str(title),
            x,
            y1,
            y2: Vec::new(),
            x_label: String::from_str(""),
            y1_label: String::from_str(label),
            y2_label: String::from_str(""),
        },
        failures: j,
        unreadable: Some(error),
    }
}

/// The chart of what a text writes, labelled with that text. A text that
/// writes no expression is drawn all the same: it has no value on any day,
/// so every point is zero and every day counts as a failure; why it could
/// not be read is told beside the chart.
pub fn custom_chart(series: &Vec<DailyRecord>, title: &str, expression: &str) -> (custom:
    CustomChart)
    requires
        series_wf(series@),
    ensures
        is_custom_chart(custom, series@, title@, expression@, parsed(expression@)),
{
    match parse_expression(expression) {
        Ok(expr) => chart_of_expression(series, title, expression, &expr),
        Err(e) => chart_of_nothing(series, title, expression, e),
    }
}

/// Where the image of a chart is kept: the file it is drawn to, the key
/// under which it is stored, and the address under which it is then found.
#[derive(Debug)]
pub struct ChartTarget {
    pub local_path: String,
    pub object_key: String,
    pub public_url: String,
}

/// The file of the image named `id`.
pub open spec fn local_path_of(id: Seq<char>) -> Seq<char> {
    "/tmp/"@ + id + ".png"@
}

/// The key under which the image named `id` is stored.
pub open spec fn object_key_of(id: Seq<char>) -> Seq<char> {
    "coronavirus/"@ + id + ".png"@
}

/// The address under which the image named `id` is found once stored.
pub open spec fn public_url_of(id: Seq<char>) -> Seq<char> {
    "https://image-paster.s3.amazonaws.com/"@ + object_key_of(id)
}

/// Where the image named `id` is kept.
pub fn chart_target(id: &str) -> (target: ChartTarget)
    ensures
        target.local_path@ == local_path_of(id@),
        target.object_key@ == object_key_of(id@),
        target.public_url@ == public_url_of(id@),
{
    let mut local_path = String::from_str("/tmp/");
    local_path.append(id);
    local_path.append(".png");
    let mut object_key = String::from_str("coronavirus/");
    object_key.append(id);
    object_key.append(".png");
    let mut public_url = String::from_str("https://image-paster.s3.amazonaws.com/");
    public_url.append(object_key.as_str());
    ChartTarget { local_path, object_key, public_url }
}

/// Whether a character is a digit of base sixteen, in lower case.
pub open spec fn is_lower_hex(c: char) -> bool {
    48 <= c as u32 <= 57 || 97 <= c as u32 <= 102
}

/// Whether a text has the form of a universally unique identifier: 36
/// characters, digits of base sixteen in lower case with a hyphen at the
/// places 8, 13, 18 and 23.
pub open spec fn is_uuid_text(id: Seq<char>) -> bool {
    &&& id.len() == 36
    &&& forall|i: int|
        0 <= i < 36 ==> if i == 8 || i == 13 || i == 18 || i == 23 {
            #[trigger] id[i] == '-'
        } else {
            is_lower_hex(id[i])
        }
}

/// Where a new image is kept, under a name made for it: a universally
/// unique identifier drawn at random.
pub fn new_chart_target() -> (target: ChartTarget)
    ensures
        exists|id: Seq<char>|
            {
                &&& #[trigger] is_uuid_text(id)
                &&& target.local_path@ == local_path_of(id)
                &&& target.object_key@ == object_key_of(id)
                &&& target.public_url@ == public_url_of(id)
            },
{
    let id = fresh_id();
    let target = chart_target(id.as_str());
    assert(is_uuid_text(id@) && target.local_path@ == local_path_of(id@));
    target
}

/// How drawing and storing a chart ended.
#[derive(Debug)]
pub enum ChartOutcome {
    /// The image is stored under the target's key.
    Stored,
    /// The image could not be drawn; the text says why.
    RenderFailed(String),
    /// The image could not be stored; the text says why.
    UploadFailed(String),
}

/// What the user is told of a chart: its address, or what went wrong.
pub open spec fn chart_answer(target: ChartTarget, outcome: ChartOutcome) -> Seq<char> {
    match outcome {
        ChartOutcome::Stored => target.public_url@,
        ChartOutcome::RenderFailed(why) => "Sorry, there was an error generating your plot:\n "@
            + why@,
        ChartOutcome::UploadFailed(why) => "Sorry, there was an error storing your plot:\n "@
            + why@,
    }
}

/// What the user is told of a chart: the address of the image where it
/// was stored, and else a sentence that says what went wrong. Whatever the
/// outcome, there is an answer.
pub fn chart_reply(target: &ChartTarget, outcome: &ChartOutcome) -> (reply: String)
    ensures
        reply@ == chart_answer(*target, *outcome),
{
    match outcome {
        ChartOutcome::Stored => target.public_url.clone(),
        ChartOutcome::RenderFailed(why) => {
            let mut reply = String::from_str("Sorry, there was an error generating your plot:\n ");
            reply.append(why.as_str());
            reply
        },
        ChartOutcome::UploadFailed(why) => {
            let mut reply = String::from_str("Sorry, there was an error storing your plot:\n ");
            reply.append(why.as_str());
            reply
        },
    }
}

/// What is said of a store that answered with a status of failure.
pub open spec fn bad_status_text(status: u16) -> Seq<char> {
    "the store answered with status "@ + decimal(status as nat)
}

/// How storing an image ended: it is stored where the store answered with
/// a status from 200 to 299, and failed otherwise.
pub fn upload_outcome(answer: Result<u16, String>) -> (outcome: ChartOutcome)
    ensures
        match answer {
            Ok(status) => if 200 <= status < 300 {
                outcome is Stored
            } else {
                outcome matches ChartOutcome::UploadFailed(why) && why@ == bad_status_text(status)
            },
            Err(why) => outcome == ChartOutcome::UploadFailed(why),
        },
{
    match answer {
        Ok(status) => if 200 <= status && status < 300 {
            ChartOutcome::Stored
        } else {
            let mut why = String::from_str("the store answered with status ");
            push_decimal(&mut why, status as u128);
            ChartOutcome::UploadFailed(why)
        },
        Err(why) => ChartOutcome::UploadFailed(why),
    }
}

/// The message that answers a query with a chart: the text of the answer,
/// a line break, and what the user is told of the chart.
pub open spec fn message_of(text: Seq<char>, target: ChartTarget, outcome: ChartOutcome) -> Seq<
    char,
> {
    text + "\n"@ + chart_answer(target, outcome)
}

/// The message that answers a query with a chart. Whatever came of the
/// chart, the text of the answer stands in the message.
pub fn chart_message(text: &str, target: &ChartTarget, outcome: &ChartOutcome) -> (message: String)
    ensures
        message@ == message_of(text@, *target, *outcome),
{
    let mut message = String::from_str(text);
    message.append("\n");
    message.append(chart_reply(target, outcome).as_str());
    message
}

} // verus!
