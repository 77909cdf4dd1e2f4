use coronabot::cache::{construct_states_map, RegionMap, RegionSeries};
use coronabot::ratio::Ratio;
use coronabot::record::DailyRecord;
use coronabot::scores::{high_scores, leader, leader_of, score, Ranking};

fn report(region: &str, date: u32, positive: u32, deaths: u32) -> DailyRecord {
    DailyRecord {
        region: Some(region.to_string()),
        date,
        positive: Some(positive),
        negative: None,
        pending: None,
        hospitalized: None,
        deaths: Some(deaths),
        total_tests: None,
    }
}

fn three_regions() -> RegionMap {
    construct_states_map(&vec![
        // NY: positives +50%, deaths +100%, mortality 2%.
        report("NY", 20200302, 300, 6),
        // WA: positives +10%, deaths +200%, mortality 6%.
        report("WA", 20200302, 110, 6),
        // FL: positives +50%, deaths +0%, mortality 10%.
        report("FL", 20200303, 30, 3),
        report("NY", 20200301, 200, 3),
        report("WA", 20200301, 100, 2),
        report("FL", 20200302, 20, 3),
    ])
}

#[test]
fn the_highest_score_leads() {
    let scores = vec![
        Ratio { num: 1, den: 3 },
        Ratio { num: 1, den: 2 },
        Ratio { num: 2, den: 5 },
    ];
    assert_eq!(leader(&scores), Some(1));
}

#[test]
fn of_equal_scores_the_first_leads() {
    let scores = vec![
        Ratio { num: 1, den: 3 },
        Ratio { num: 1, den: 2 },
        Ratio { num: 2, den: 4 },
        Ratio { num: 50, den: 100 },
    ];
    assert_eq!(leader(&scores), Some(1));
}

#[test]
fn the_highest_score_leads_whatever_its_sign() {
    assert_eq!(leader(&Vec::new()), None);
    assert_eq!(leader(&vec![Ratio::zero()]), Some(0));
    assert_eq!(leader(&vec![Ratio::zero(), Ratio { num: -1, den: 2 }]), Some(0));
    assert_eq!(leader(&vec![Ratio { num: -1, den: 2 }, Ratio::zero()]), Some(1));
    assert_eq!(leader(&vec![Ratio { num: -1, den: 2 }, Ratio { num: -1, den: 3 }]), Some(1));
    assert_eq!(leader(&vec![Ratio { num: -1, den: 2 }, Ratio { num: -2, den: 4 }]), Some(0));
    assert_eq!(leader(&vec![Ratio::zero(), Ratio::zero(), Ratio::zero()]), Some(0));
    assert_eq!(leader(&vec![Ratio { num: -1, den: 2 }, Ratio { num: 1, den: 1000 }]), Some(1));
}

#[test]
fn a_score_is_read_from_today_and_yesterday() {
    let days = vec![report("NY", 20200302, 300, 6), report("NY", 20200301, 200, 3)];
    let growth = score(&days, Ranking::PositiveGrowth);
    assert_eq!((growth.num, growth.den), (10000, 200));
    let deaths = score(&days, Ranking::DeathGrowth);
    assert_eq!((deaths.num, deaths.den), (300, 3));
    let mortality = score(&days, Ranking::Mortality);
    assert_eq!((mortality.num, mortality.den), (600, 300));
    let one = vec![report("NY", 20200302, 300, 6)];
    assert_eq!(score(&one, Ranking::PositiveGrowth).num, 0);
    assert_eq!(score(&one, Ranking::Mortality).num, 600);
    assert_eq!(score(&Vec::new(), Ranking::Mortality).num, 0);
    let from_zero = vec![report("NY", 20200302, 300, 6), report("NY", 20200301, 0, 0)];
    assert_eq!(score(&from_zero, Ranking::PositiveGrowth).num, 0);
    assert_eq!(score(&from_zero, Ranking::DeathGrowth).num, 0);
}

#[test]
fn high_scores_names_the_leader_of_each_ranking() {
    let scores = high_scores(&three_regions());
    assert_eq!(scores.as_of, 20200303);
    let growth = scores.positive_growth.unwrap();
    assert_eq!(growth.region, "NY");
    assert_eq!(growth.score.num as f64 / growth.score.den as f64, 50.0);
    let deaths = scores.death_growth.unwrap();
    assert_eq!(deaths.region, "WA");
    assert_eq!(deaths.score.num as f64 / deaths.score.den as f64, 200.0);
    let mortality = scores.mortality.unwrap();
    assert_eq!(mortality.region, "FL");
    assert_eq!(mortality.score.num as f64 / mortality.score.den as f64, 10.0);
}

#[test]
fn high_scores_of_no_region_names_none() {
    let scores = high_scores(&RegionMap::new());
    assert_eq!(scores.as_of, 0);
    assert!(scores.positive_growth.is_none());
    assert!(scores.death_growth.is_none());
    assert!(scores.mortality.is_none());
}

#[test]
fn where_no_region_grows_the_one_that_fell_least_leads() {
    let map = construct_states_map(&vec![
        report("NY", 20200302, 90, 0),
        report("WA", 20200302, 99, 0),
        report("NY", 20200301, 100, 0),
        report("WA", 20200301, 100, 0),
    ]);
    let growth = leader_of(&map, Ranking::PositiveGrowth).unwrap();
    assert_eq!(growth.region, "WA");
    assert_eq!((growth.score.num, growth.score.den), (-100, 100));
    let deaths = leader_of(&map, Ranking::DeathGrowth).unwrap();
    assert_eq!(deaths.region, "NY");
    assert_eq!((deaths.score.num, deaths.score.den), (0, 1));
    let mortality = leader_of(&map, Ranking::Mortality).unwrap();
    assert_eq!(mortality.region, "NY");
    assert_eq!(mortality.score.num, 0);
    assert!(leader_of(&RegionMap::new(), Ranking::Mortality).is_none());
}

#[test]
fn an_entry_without_a_record_scores_zero() {
    let map = RegionMap {
        entries: vec![
            RegionSeries { code: "XX".to_string(), days: Vec::new() },
            RegionSeries {
                code: "NY".to_string(),
                days: vec![report("NY", 20200302, 100, 1), report("NY", 20200301, 50, 1)],
            },
        ],
    };
    let scores = high_scores(&map);
    assert_eq!(scores.as_of, 20200302);
    assert_eq!(scores.positive_growth.unwrap().region, "NY");
    // Neither grows in deaths: the first entry leads.
    assert_eq!(scores.death_growth.unwrap().region, "XX");
    assert_eq!(scores.mortality.unwrap().region, "NY");
}
