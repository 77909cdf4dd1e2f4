//! The regions that lead in growth and in mortality.

use vstd::prelude::*;

use crate::cache::{RegionMap, RegionSeries};
use crate::metrics::{change_of, mortality_of, mortality_rate, percent_change};
use crate::ratio::{Frac, Ratio};
use crate::record::{reported, reported_or_zero, Category, DailyRecord};

verus! {

/// Entry `i` leads the scores: its score is above every score before it
/// and not below any score after it. Of several entries with the highest
/// score the first one leads.
pub open spec fn leads(scores: Seq<Frac>, i: int) -> bool {
    &&& 0 <= i < scores.len()
    &&& forall|j: int| 0 <= j < i ==> (#[trigger] scores[j]).lt(scores[i])
    &&& forall|j: int| i < j < scores.len() ==> (#[trigger] scores[j]).le(scores[i])
}

/// The fractions that a vector of ratios stands for.
pub open spec fn fracs(scores: Seq<Ratio>) -> Seq<Frac> {
    Seq::new(scores.len(), |i: int| scores[i]@)
}

/// The order of fractions with positive denominators is transitive.
pub proof fn lemma_order_transitive(a: Frac, b: Frac, c: Frac)
    requires
        a.wf(),
        b.wf(),
        c.wf(),
    ensures
        a.le(b) && b.le(c) ==> a.le(c),
        a.lt(b) && b.le(c) ==> a.lt(c),
        a.le(b) && b.lt(c) ==> a.lt(c),
{
    let x = a.num * b.den;
    let y = b.num * a.den;
    let u = b.num * c.den;
    let v = c.num * b.den;
    assert(x * c.den == (a.num * c.den) * b.den) by (nonlinear_arith)
        requires
            x == a.num * b.den,
    ;
    assert(y * c.den == u * a.den) by (nonlinear_arith)
        requires
            y == b.num * a.den,
            u == b.num * c.den,
    ;
    assert(v * a.den == (c.num * a.den) * b.den) by (nonlinear_arith)
        requires
            v == c.num * b.den,
    ;
    if a.le(b) && b.le(c) {
        assert(x * c.den <= y * c.den) by (nonlinear_arith)
            requires
                x <= y,
                c.den > 0,
        ;
        assert(u * a.den <= v * a.den) by (nonlinear_arith)
            requires
                u <= v,
                a.den > 0,
        ;
        assert(a.num * c.den <= c.num * a.den) by (nonlinear_arith)
            requires
                (a.num * c.den) * b.den <= (c.num * a.den) * b.den,
                b.den > 0,
        ;
    }
    if a.lt(b) && b.le(c) {
        assert(x * c.den < y * c.den) by (nonlinear_arith)
            requires
                x < y,
                c.den > 0,
        ;
        assert(u * a.den <= v * a.den) by (nonlinear_arith)
            requires
                u <= v,
                a.den > 0,
        ;
        assert(a.num * c.den < c.num * a.den) by (nonlinear_arith)
            requires
                (a.num * c.den) * b.den < (c.num * a.den) * b.den,
                b.den > 0,
        ;
    }
    if a.le(b) && b.lt(c) {
        assert(x * c.den <= y * c.den) by (nonlinear_arith)
            requires
                x <= y,
                c.den > 0,
        ;
        assert(u * a.den < v * a.den) by (nonlinear_arith)
            requires
                u < v,
                a.den > 0,
        ;
        assert(a.num * c.den < c.num * a.den) by (nonlinear_arith)
            requires
                (a.num * c.den) * b.den < (c.num * a.den) * b.den,
                b.den > 0,
        ;
    }
}

/// The leader has the highest score: no score is above its own.
pub proof fn lemma_leader_is_highest(scores: Seq<Frac>, i: int, j: int)
    requires
        leads(scores, i),
        0 <= j < scores.len(),
    ensures
        scores[j].le(scores[i]),
{
}

/// The entry that leads the scores; none where there is no score.
pub fn leader(scores: &Vec<Ratio>) -> (best: Option<usize>)
    requires
        forall|i: int| 0 <= i < scores.len() ==> (#[trigger] scores[i]).wf(),
    ensures
        best is None <==> scores.len() == 0,
        best matches Some(i) ==> leads(fracs(scores@), i as int),
{
    if scores.len() == 0 {
        return None;
    }
    let mut best: usize = 0;
    let mut k: usize = 1;
    let ghost all = fracs(scores@);
    while k < scores.len()
        invariant
            1 <= k <= scores.len(),
            all == fracs(scores@),
            forall|i: int| 0 <= i < scores.len() ==> (#[trigger] scores[i]).wf(),
            leads(all.subrange(0, k as int), best as int),
        decreases scores.len() - k,
    {
        let ghost seen = all.subrange(0, k as int);
        let ghost next = all.subrange(0, k + 1);
        let score = &scores[k];
        assert(scores[k as int].wf());
        assert(scores[best as int].wf());
        assert(next[k as int] == score@);
        assert(forall|j: int| 0 <= j < k ==> next[j] == seen[j]);
        if scores[best].less_than(score) {
            proof {
                assert forall|j: int| 0 <= j < k implies (#[trigger] next[j]).lt(
                    next[k as int],
                ) by {
                    assert(scores[j].wf());
                    assert(seen[j] == scores[j]@);
                    if j < best {
                        assert(seen[j].lt(seen[best as int]));
                    } else if j > best {
                        assert(seen[j].le(seen[best as int]));
                    }
                    lemma_order_transitive(seen[j], seen[best as int], score@);
                }
            }
            best = k;
        } else {
            proof {
                assert(next[best as int] == seen[best as int]);
                assert forall|j: int| best < j < k + 1 implies (#[trigger] next[j]).le(
                    next[best as int],
                ) by {
                    if j < k {
                        assert(seen[j].le(seen[best as int]));
                    }
                }
            }
        }
        k += 1;
    }
    assert(all.subrange(0, scores.len() as int) =~= all);
    Some(best)
}

/// Which count a ranking goes by.
#[derive(Clone, Copy, Debug, PartialEq, Eq, Structural)]
pub enum Ranking {
    /// The growth of positive cases over the day before, in percent.
    PositiveGrowth,
    /// The growth of deaths over the day before, in percent.
    DeathGrowth,
    /// Deaths in percent of positive cases, at the latest day.
    Mortality,
}

/// The score of a region's series in a ranking. A series holds its most
/// recent day first; one without a record scores zero.
pub open spec fn score_of(days: Seq<DailyRecord>, ranking: Ranking) -> Frac {
    match ranking {
        Ranking::PositiveGrowth => change_of(days, Category::Positive),
        Ranking::DeathGrowth => change_of(days, Category::Deaths),
        Ranking::Mortality => if days.len() == 0 {
            Frac::whole(0)
        } else {
            mortality_of(reported(days[0].deaths), reported(days[0].positive))
        },
    }
}

/// The scores of the regions in a ranking, in the order of their entries.
pub open spec fn scores_of(entries: Seq<RegionSeries>, ranking: Ranking) -> Seq<Frac> {
    Seq::new(entries.len(), |i: int| score_of(entries[i].days@, ranking))
}

/// The score of a region's series in a ranking.
pub fn score(days: &Vec<DailyRecord>, ranking: Ranking) -> (r: Ratio)
    ensures
        r@ == score_of(days@, ranking),
        r.wf(),
{
    if days.len() == 0 {
        return Ratio::zero();
    }
    let today = &days[0];
    match ranking {
        Ranking::Mortality => mortality_rate(
            reported_or_zero(today.deaths),
            reported_or_zero(today.positive),
        ),
        Ranking::PositiveGrowth => if days.len() < 2 {
            Ratio::zero()
        } else {
            percent_change(
                reported_or_zero(today.positive),
                reported_or_zero(days[1].positive),
            )
        },
        Ranking::DeathGrowth => if days.len() < 2 {
            Ratio::zero()
        } else {
            percent_change(reported_or_zero(today.deaths), reported_or_zero(days[1].deaths))
        },
    }
}

/// The region that leads a ranking, and its score.
#[derive(Debug)]
pub struct Leader {
    pub region: String,
    pub score: Ratio,
}

/// What `found` says of a ranking of the regions: the region that leads it
/// and that region's score, or that there is no region.
pub open spec fn tells_leader(found: Option<Leader>, entries: Seq<RegionSeries>, ranking: Ranking) -> bool {
    match found {
        Some(leader) => exists|i: int|
            {
                &&& #[trigger] leads(scores_of(entries, ranking), i)
                &&& leader.region@ == entries[i].code@
                &&& leader.score@ == score_of(entries[i].days@, ranking)
                &&& leader.score.wf()
            },
        None => entries.len() == 0,
    }
}

/// The region that leads a ranking: the one with the highest score, and
/// of several such regions the one that stands first in the map. Only a
/// map without a region has no leader.
pub fn leader_of(map: &RegionMap, ranking: Ranking) -> (found: Option<Leader>)
    ensures
        tells_leader(found, map.entries@, ranking),
{
    let mut scores: Vec<Ratio> = Vec::new();
    let mut i: usize = 0;
    while i < map.entries.len()
        invariant
            i <= map.entries.len(),
            scores.len() == i,
            forall|j: int| 0 <= j < i ==> (#[trigger] scores[j])@ == score_of(
                map.entries[j].days@,
                ranking,
            ),
            forall|j: int| 0 <= j < i ==> (#[trigger] scores[j]).wf(),
        decreases map.entries.len() - i,
    {
        scores.push(score(&map.entries[i].days, ranking));
        i += 1;
    }
    assert(fracs(scores@) =~= scores_of(map.entries@, ranking));
    match leader(&scores) {
        Some(i) => {
            let found = Leader { region: map.entries[i].code.clone(), score: scores[i] };
            assert(leads(scores_of(map.entries@, ranking), i as int));
            Some(found)
        },
        None => None,
    }
}

/// The date of the most recent first record among the first `upto`
/// regions; zero where none of them has a record.
pub open spec fn latest_date(entries: Seq<RegionSeries>, upto: int) -> int
    decreases upto,
{
    if upto <= 0 {
        0
    } else if entries[upto - 1].days@.len() > 0 && entries[upto - 1].days@[0].date > latest_date(
        entries,
        upto - 1,
    ) {
        entries[upto - 1].days@[0].date as int
    } else {
        latest_date(entries, upto - 1)
    }
}

/// The regions that lead the three rankings.
#[derive(Debug)]
pub struct HighScores {
    /// The most recent day that a region reports, written as the number
    /// `YYYYMMDD`; zero where no region has a record.
    pub as_of: u32,
    pub positive_growth: Option<Leader>,
    pub death_growth: Option<Leader>,
    pub mortality: Option<Leader>,
}

/// The regions that lead in the growth of positive cases, in the growth of
/// deaths and in mortality.
pub fn high_scores(map: &RegionMap) -> (scores: HighScores)
    ensures
        scores.as_of == latest_date(map.entries@, map.entries@.len() as int),
        tells_leader(scores.positive_growth, map.entries@, Ranking::PositiveGrowth),
        tells_leader(scores.death_growth, map.entries@, Ranking::DeathGrowth),
        tells_leader(scores.mortality, map.entries@, Ranking::Mortality),
{
    let mut as_of: u32 = 0;
    let mut i: usize = 0;
    while i < map.entries.len()
        invariant
            i <= map.entries.len(),
            as_of == latest_date(map.entries@, i as int),
        decreases map.entries.len() - i,
    {
        let days = &map.entries[i].days;
        if days.len() > 0 && days[0].date > as_of {
            as_of = days[0].date;
        }
        i += 1;
    }
    HighScores {
        as_of,
        positive_growth: leader_of(map, Ranking::PositiveGrowth),
        death_growth: leader_of(map, Ranking::DeathGrowth),
        mortality: leader_of(map, Ranking::Mortality),
    }
}

} // verus!
