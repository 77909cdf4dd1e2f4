//! The figures of a day put into words.

use vstd::prelude::*;
use vstd::string::StringExecFns;

use crate::cache::{RegionMap, RegionSeries};
use crate::calendar::{check_day_stamp, is_day_stamp, label_of, label_text};
use crate::chart::TRAILING_WINDOW;
use crate::metrics::{compute_latest, DerivedMetrics};
use crate::ratio::{Frac, Ratio};
use crate::record::{series_wf, DailyRecord};
use crate::scores::{high_scores, latest_date, tells_leader, HighScores, Leader, Ranking};
use crate::text::{
    change_text, grouped, push_change, push_grouped, push_rate, rate_text,
};

verus! {

/// The summary of the latest figures of a series, under a title. Counts
/// are written with their digits in groups of three, changes as whole
/// percents with their sign, the mortality rate with two digits behind the
/// point.
pub open spec fn daily_text(title: Seq<char>, m: DerivedMetrics) -> Seq<char> {
    "\n        "@ + title + " Overall Daily Stats ("@ + label_text(m.as_of)
        + ")\n Total positive: "@ + grouped(m.positive as nat) + " ("@ + change_text(
        m.positive_change@,
    ) + "%)\n Total negative: "@ + grouped(m.negative as nat) + " ("@ + change_text(
        m.negative_change@,
    ) + "%)\n Total tested: "@ + grouped(m.tested as nat) + " ("@ + change_text(m.tested_change@)
        + "%)\n Total hospitalized: "@ + grouped(m.hospitalized as nat) + " ("@ + change_text(
        m.hospitalized_change@,
    ) + "%)\n Mortality rate: "@ + rate_text(m.mortality_rate@) + "% \n Souls lost: "@ + grouped(
        m.deaths as nat,
    ) + " ("@ + change_text(m.deaths_change@) + "%)"@
}

/// Writes the summary of the latest figures of a series.
pub fn format_metrics(m: &DerivedMetrics, geo_title: &str) -> (text: String)
    requires
        m.wf(),
        is_day_stamp(m.as_of),
    ensures
        text@ == daily_text(geo_title@, *m),
{
    let mut text = String::from_str("\n        ");
    text.append(geo_title);
    text.append(" Overall Daily Stats (");
    text.append(label_of(m.as_of).as_str());
    text.append(")\n Total positive: ");
    push_grouped(&mut text, m.positive as u64);
    text.append(" (");
    push_change(&mut text, &m.positive_change);
    text.append("%)\n Total negative: ");
    push_grouped(&mut text, m.negative as u64);
    text.append(" (");
    push_change(&mut text, &m.negative_change);
    text.append("%)\n Total tested: ");
    push_grouped(&mut text, m.tested);
    text.append(" (");
    push_change(&mut text, &m.tested_change);
    text.append("%)\n Total hospitalized: ");
    push_grouped(&mut text, m.hospitalized as u64);
    text.append(" (");
    push_change(&mut text, &m.hospitalized_change);
    text.append("%)\n Mortality rate: ");
    push_rate(&mut text, &m.mortality_rate);
    text.append("% \n Souls lost: ");
    push_grouped(&mut text, m.deaths as u64);
    text.append(" (");
    push_change(&mut text, &m.deaths_change);
    text.append("%)");
    text
}

/// `text` is the summary of the latest figures of a series under a title.
pub open spec fn tells_daily(text: String, series: Seq<DailyRecord>, title: Seq<char>) -> bool {
    exists|m: DerivedMetrics|
        #[trigger] m.describes(series, TRAILING_WINDOW as int) && text@ == daily_text(title, m)
}

/// The summary of the latest figures of a series, under a title. A series
/// without a record is summed up with every figure at zero, under the
/// first of March 2020.
pub fn format_daily(data: &Vec<DailyRecord>, geo_title: &str) -> (text: String)
    requires
        series_wf(data@),
    ensures
        tells_daily(text, data@, geo_title@),
{
    let m = compute_latest(data, TRAILING_WINDOW);
    proof {
        if data.len() > 0 {
            assert(data@[0].wf());
        }
    }
    let summary = format_metrics(&m, geo_title);
    assert(m.describes(data@, TRAILING_WINDOW as int));
    summary
}

/// The name of the region that leads a ranking; empty where there is no
/// region.
pub open spec fn leader_name(found: Option<Leader>) -> Seq<char> {
    match found {
        Some(leader) => leader.region@,
        None => Seq::empty(),
    }
}

/// The score of the region that leads a ranking; zero where there is no
/// region.
pub open spec fn leader_score(found: Option<Leader>) -> Frac {
    match found {
        Some(leader) => leader.score@,
        None => Frac::whole(0),
    }
}

/// The day of the high scores as it is written: the day itself, or
/// `2020-03-01` where no region reports a calendar day.
pub open spec fn scores_day(as_of: u32) -> Seq<char> {
    if is_day_stamp(as_of) {
        label_text(as_of)
    } else {
        "2020-03-01"@
    }
}

/// The three leading regions put into words.
pub open spec fn scores_text(scores: HighScores) -> Seq<char> {
    "\n        Daily Worsts ("@ + scores_day(scores.as_of) + ")\n Mortality rate: "@
        + leader_name(scores.mortality) + " ("@ + rate_text(leader_score(scores.mortality))
        + "%)\n Positive tests growth: "@ + leader_name(scores.positive_growth) + " ("@
        + change_text(leader_score(scores.positive_growth)) + "%)\n Deaths growth: "@
        + leader_name(scores.death_growth) + " ("@ + change_text(
        leader_score(scores.death_growth),
    ) + "%)"@
}

/// Every score among the leaders is a well-formed fraction.
pub open spec fn leaders_wf(scores: HighScores) -> bool {
    &&& scores.mortality matches Some(l) ==> l.score.wf()
    &&& scores.positive_growth matches Some(l) ==> l.score.wf()
    &&& scores.death_growth matches Some(l) ==> l.score.wf()
}

/// Writes the name and the score of a leader, the score as a rate or as a
/// change.
fn push_leader(text: &mut String, found: &Option<Leader>, as_rate: bool)
    requires
        found matches Some(l) ==> l.score.wf(),
    ensures
        final(text)@ == old(text)@ + leader_name(*found) + " ("@ + (if as_rate {
            rate_text(leader_score(*found))
        } else {
            change_text(leader_score(*found))
        }),
{
    let zero = Ratio::zero();
    let score = match found {
        Some(leader) => {
            text.append(leader.region.as_str());
            &leader.score
        },
        None => {
            assert(old(text)@ + Seq::<char>::empty() =~= old(text)@);
            &zero
        },
    };
    text.append(" (");
    if as_rate {
        push_rate(text, score);
    } else {
        push_change(text, score);
    }
}

/// Writes the three leading regions out.
pub fn format_scores(scores: &HighScores) -> (text: String)
    requires
        leaders_wf(*scores),
    ensures
        text@ == scores_text(*scores),
{
    let mut text = String::from_str("\n        Daily Worsts (");
    if check_day_stamp(scores.as_of) {
        text.append(label_of(scores.as_of).as_str());
    } else {
        text.append("2020-03-01");
    }
    text.append(")\n Mortality rate: ");
    push_leader(&mut text, &scores.mortality, true);
    text.append("%)\n Positive tests growth: ");
    push_leader(&mut text, &scores.positive_growth, false);
    text.append("%)\n Deaths growth: ");
    push_leader(&mut text, &scores.death_growth, false);
    text.append("%)");
    text
}

/// What `scores` says of the regions: the most recent day among them and
/// the leaders of the three rankings.
pub open spec fn tells_scores(scores: HighScores, entries: Seq<RegionSeries>) -> bool {
    &&& scores.as_of == latest_date(entries, entries.len() as int)
    &&& tells_leader(scores.positive_growth, entries, Ranking::PositiveGrowth)
    &&& tells_leader(scores.death_growth, entries, Ranking::DeathGrowth)
    &&& tells_leader(scores.mortality, entries, Ranking::Mortality)
}

/// The regions that lead in mortality, in the growth of positive cases and
/// in the growth of deaths, put into words.
pub fn format_high_scores(data: &RegionMap) -> (text: String)
    ensures
        exists|scores: HighScores|
            #[trigger] tells_scores(scores, data.entries@) && text@ == scores_text(scores),
{
    let scores = high_scores(data);
    assert(tells_scores(scores, data.entries@));
    format_scores(&scores)
}

} // verus!
