use coronabot::bot::{
    bad_expression_reply, unknown_state_reply, Answer, Coronabot, QueryError,
};
use coronabot::chart::{chart_message, chart_target, ChartOutcome};
use coronabot::cache::RefreshError;
use coronabot::command::Command;
use coronabot::lexer::ExprError;
use coronabot::record::DailyRecord;

fn reading(region: Option<&str>, date: u32, positive: u32, total: u32) -> DailyRecord {
    DailyRecord {
        region: region.map(|code| code.to_string()),
        date,
        positive: Some(positive),
        negative: Some(total - positive),
        pending: None,
        hospitalized: Some(0),
        deaths: Some(0),
        total_tests: Some(total),
    }
}

fn week(region: Option<&str>) -> Vec<DailyRecord> {
    vec![
        reading(region, 20200307, 190, 1700),
        reading(region, 20200306, 160, 1500),
        reading(region, 20200305, 150, 1200),
        reading(region, 20200304, 100, 1000),
        reading(region, 20200303, 120, 900),
        reading(region, 20200302, 110, 500),
        reading(region, 20200301, 100, 400),
    ]
}

fn fed_bot() -> Coronabot {
    let mut bot = Coronabot::new("<@U123>".to_string());
    assert_eq!(bot.refresh(week(None), &week(Some("NY"))), Ok(()));
    bot
}

const STATE_MISSING: &str = "Sorry, state-level data is missing. Is the API working?";
const COUNTRY_MISSING: &str = "Sorry, country-level data is missing. Is the API working?";

fn text_of_answer(answer: Answer) -> String {
    match answer {
        Answer::Text(text) => text,
        other => panic!("not a text: {:?}", other),
    }
}

#[test]
fn a_new_bot_keeps_its_identifier_and_has_no_data() {
    let bot = Coronabot::new("<@U123>".to_string());
    assert_eq!(bot.bot_id, "<@U123>");
    assert!(bot.cache.get_snapshot().is_none());
}

#[test]
fn safe_diff_is_the_clamped_rise() {
    let bot = Coronabot::new(String::new());
    assert_eq!(bot.safe_diff(Some(10), Some(4)), 6);
    assert_eq!(bot.safe_diff(Some(4), Some(10)), 0);
    assert_eq!(bot.safe_diff(None, Some(10)), 0);
    assert_eq!(bot.safe_diff(Some(10), None), 10);
    assert_eq!(bot.safe_diff(Some(u32::MAX), Some(1)), u32::MAX - 1);
}

#[test]
fn every_query_before_the_first_refresh_misses_its_data() {
    let bot = Coronabot::new("<@U123>".to_string());
    assert!(matches!(bot.latest(None), Err(QueryError::MissingData)));
    assert!(matches!(bot.latest(Some("NY")), Err(QueryError::MissingData)));
    assert!(matches!(bot.latest(Some("")), Err(QueryError::MissingData)));
    assert!(matches!(bot.top(), Err(QueryError::MissingData)));
    assert!(matches!(bot.custom("NY", "positive"), Err(QueryError::MissingData)));
    assert!(matches!(bot.custom("NY", "not an expression"), Err(QueryError::MissingData)));
    // Asked again, the answer is the same.
    assert!(matches!(bot.latest(None), Err(QueryError::MissingData)));
    assert!(matches!(bot.latest(Some("NY")), Err(QueryError::MissingData)));
}

#[test]
fn a_message_before_the_first_refresh_is_told_that_data_is_missing() {
    let bot = Coronabot::new("<@U123>".to_string());
    assert_eq!(text_of_answer(bot.handle_mention("<@U123> latest")), COUNTRY_MISSING);
    assert_eq!(text_of_answer(bot.handle_mention("<@U123> top")), STATE_MISSING);
    assert_eq!(text_of_answer(bot.handle_mention("<@U123> NY")), STATE_MISSING);
    assert_eq!(
        text_of_answer(bot.handle_mention("<@U123> custom NY y1 positive")),
        STATE_MISSING
    );
}

#[test]
fn a_failed_refresh_leaves_the_bot_without_data() {
    let mut bot = Coronabot::new("<@U123>".to_string());
    let mut regional = week(Some("NY"));
    regional[0].date = 20200931;
    assert_eq!(bot.refresh(week(None), &regional), Err(RefreshError::Parse));
    assert!(matches!(bot.latest(None), Err(QueryError::MissingData)));
    assert_eq!(bot.bot_id, "<@U123>");
}

#[test]
fn latest_gives_the_summary_and_the_chart() {
    let bot = fed_bot();
    let national = bot.latest(None).unwrap();
    assert!(national.summary.starts_with("\n        U.S. Overall Daily Stats (2020-03-07)\n"));
    assert!(national.summary.contains(" Total positive: 190 (+19%)\n"));
    assert_eq!(national.chart.title, "U.S. Coronavirus Cases");
    assert_eq!(national.chart.x.len(), 2);
    assert_eq!(national.chart.y1.len(), 2);
    assert_eq!(national.chart.y2.len(), 2);

    let regional = bot.latest(Some("NY")).unwrap();
    assert!(regional.summary.starts_with("\n        NY Overall Daily Stats (2020-03-07)\n"));
    assert_eq!(regional.chart.title, "NY Coronavirus Cases");
    assert_eq!((regional.chart.y1[1].num, regional.chart.y1[1].den), (100, 5));
}

#[test]
fn latest_of_a_region_that_is_not_there_says_so() {
    let bot = fed_bot();
    assert!(matches!(bot.latest(Some("WA")), Err(QueryError::UnknownRegion)));
    assert!(matches!(bot.latest(Some("ny")), Err(QueryError::UnknownRegion)));
    assert!(matches!(bot.custom("WA", "positive"), Err(QueryError::UnknownRegion)));
    assert!(matches!(bot.custom("WA", "not an expression"), Err(QueryError::UnknownRegion)));
}

#[test]
fn latest_of_a_published_series_without_a_record_writes_zeros() {
    let mut bot = Coronabot::new("<@U123>".to_string());
    assert_eq!(bot.refresh(Vec::new(), &week(Some("NY"))), Ok(()));
    let empty = bot.latest(None).unwrap();
    assert_eq!(
        empty.summary,
        "\n        U.S. Overall Daily Stats (2020-03-01)\n Total positive: 0 (+0%)\n Total negative: 0 (+0%)\n Total tested: 0 (+0%)\n Total hospitalized: 0 (+0%)\n Mortality rate: 0.00% \n Souls lost: 0 (+0%)"
    );
    assert_eq!(empty.chart.title, "U.S. Coronavirus Cases");
    assert!(empty.chart.x.is_empty());
    assert!(bot.latest(Some("NY")).is_ok());
    match bot.handle_mention("<@U123> latest") {
        Answer::Chart { text, .. } => assert_eq!(text, empty.summary),
        other => panic!("{:?}", other),
    }
}

#[test]
fn a_snapshot_without_a_national_series_misses_it() {
    let mut bot = Coronabot::new("<@U123>".to_string());
    bot.cache.publish(None, coronabot::cache::construct_states_map(&week(Some("NY"))));
    assert!(matches!(bot.latest(None), Err(QueryError::MissingData)));
    assert_eq!(text_of_answer(bot.handle_mention("<@U123> latest")), COUNTRY_MISSING);
    assert!(bot.latest(Some("NY")).is_ok());
}

#[test]
fn top_names_the_leaders() {
    let bot = fed_bot();
    assert_eq!(
        bot.top().unwrap(),
        "\n        Daily Worsts (2020-03-07)\n Mortality rate: NY (0.00%)\n Positive tests growth: NY (+19%)\n Deaths growth: NY (+0%)"
    );
}

#[test]
fn custom_gives_the_chart_of_the_expression() {
    let bot = fed_bot();
    let custom = bot.custom("NY", "positive/total").unwrap();
    assert_eq!(custom.failures, 0);
    assert_eq!(custom.chart.title, "NY Custom Chart");
    assert_eq!(custom.chart.y1_label, "positive/total");
    assert_eq!(custom.chart.x.len(), 6);
    assert_eq!((custom.chart.y1[0].num, custom.chart.y1[0].den), (1, 10));
    assert_eq!(custom.unreadable, None);
    let unreadable = bot.custom("NY", "positive/").unwrap();
    assert_eq!(unreadable.unreadable, Some(ExprError::Syntax));
    assert_eq!(unreadable.failures, 6);
    assert_eq!(unreadable.chart.title, "NY Custom Chart");
    assert_eq!(unreadable.chart.y1_label, "positive/");
    assert_eq!(unreadable.chart.x, custom.chart.x);
    assert!(unreadable.chart.y1.iter().all(|r| (r.num, r.den) == (0, 1)));
    assert_eq!(bot.custom("NY", "cases").unwrap().unreadable, Some(ExprError::UnknownName));
}

#[test]
fn a_message_is_answered_by_what_it_asks_for() {
    let bot = fed_bot();
    assert!(matches!(bot.handle_mention("<@U123>"), Answer::Nothing));
    assert!(text_of_answer(bot.handle_mention("<@U123> help")).starts_with("Usage:\n Overall"));
    assert_eq!(
        text_of_answer(bot.handle_mention("<@U123> custom NY positive / total")),
        "Missing y-axis specifier. Usage: @coronabot custom <state> y1 <expression>"
    );
    assert_eq!(
        text_of_answer(bot.handle_mention("<@U123> WA")),
        "State data is present but does not contain stats for WA"
    );
    assert_eq!(
        text_of_answer(bot.handle_mention("<@U123> custom WA y1 positive")),
        "State data is present but does not contain stats for WA"
    );
    match bot.handle_mention("<@U123> custom NY y1 positive +") {
        Answer::Chart { text, chart, failures, unreadable } => {
            assert_eq!(text, "");
            assert_eq!(chart.title, "NY Custom Chart");
            assert_eq!(chart.y1_label, "positive +");
            assert_eq!(chart.x.len(), 6);
            assert!(chart.y1.iter().all(|r| (r.num, r.den) == (0, 1)));
            assert_eq!(failures, 6);
            assert_eq!(unreadable, Some(ExprError::Syntax));
        }
        other => panic!("{:?}", other),
    }
    assert_eq!(text_of_answer(bot.handle_mention("<@U123> top")), bot.top().unwrap());
    match bot.handle_mention("<@U123> latest") {
        Answer::Chart { text, chart, failures, .. } => {
            assert_eq!(text, bot.latest(None).unwrap().summary);
            assert_eq!(chart.title, "U.S. Coronavirus Cases");
            assert_eq!(failures, 0);
        }
        other => panic!("{:?}", other),
    }
    match bot.handle_mention("<@U123> NY") {
        Answer::Chart { text, chart, failures, .. } => {
            assert_eq!(text, bot.latest(Some("NY")).unwrap().summary);
            assert_eq!(chart.title, "NY Coronavirus Cases");
            assert_eq!(failures, 0);
        }
        other => panic!("{:?}", other),
    }
    match bot.handle_mention("<@U123> custom NY y1 1 / (positive - 10)") {
        Answer::Chart { text, chart, failures, unreadable } => {
            assert_eq!(unreadable, None);
            assert_eq!(text, "");
            assert_eq!(chart.title, "NY Custom Chart");
            assert_eq!(chart.y1_label, "1 / (positive - 10)");
            // Three of the six days added 10 positives.
            assert_eq!(failures, 3);
            assert_eq!(chart.y1.len(), 6);
        }
        other => panic!("{:?}", other),
    }
}

#[test]
fn answer_takes_a_command_that_was_read_before() {
    let bot = fed_bot();
    assert!(matches!(bot.answer(&Command::Ignore), Answer::Nothing));
    assert_eq!(
        text_of_answer(bot.answer(&Command::Region("TX".to_string()))),
        "State data is present but does not contain stats for TX"
    );
    match bot.answer(&Command::Custom {
        region: "NY".to_string(),
        expression: "dead".to_string(),
    }) {
        Answer::Chart { failures, chart, .. } => {
            assert_eq!(failures, 0);
            assert!(chart.y1.iter().all(|r| r.num == 0));
        }
        other => panic!("{:?}", other),
    }
}

#[test]
fn every_error_of_an_expression_has_its_sentence() {
    assert_eq!(bad_expression_reply(ExprError::TooLong), "Sorry, that expression is too long.");
    assert_eq!(
        bad_expression_reply(ExprError::UnexpectedCharacter),
        "Sorry, that expression holds a character I cannot read."
    );
    assert_eq!(
        bad_expression_reply(ExprError::MalformedNumber),
        "Sorry, that expression holds a number I cannot read."
    );
    assert_eq!(
        bad_expression_reply(ExprError::UnknownName),
        "Sorry, that expression names something I do not know. I know positive, negative, total, dead, hospitalized and pending."
    );
    assert_eq!(
        bad_expression_reply(ExprError::Syntax),
        "Sorry, I could not make sense of that expression."
    );
    assert_eq!(
        unknown_state_reply("ZZ"),
        "State data is present but does not contain stats for ZZ"
    );
}

#[test]
fn a_message_mentions_the_bot_where_it_holds_its_identifier() {
    let bot = Coronabot::new("<@U123>".to_string());
    assert!(bot.is_mentioned("<@U123> latest"));
    assert!(bot.is_mentioned("hello <@U123>"));
    assert!(bot.is_mentioned("x<@U123>y"));
    assert!(!bot.is_mentioned("<@U12> latest"));
    assert!(!bot.is_mentioned("<@U1234> latest".replace("3", "").as_str()));
    assert!(!bot.is_mentioned(""));
}

#[test]
fn a_bot_without_an_identifier_is_mentioned_in_every_message() {
    let mut bot = Coronabot::new(String::new());
    assert!(bot.is_mentioned("anything"));
    assert!(bot.is_mentioned(""));
    assert!(text_of_answer(bot.on_message("<@U999> help")).starts_with("Usage:\n Overall"));
    assert_eq!(text_of_answer(bot.on_message("<@U999> latest")), COUNTRY_MISSING);
    assert!(matches!(bot.on_message("word"), Answer::Nothing));
    assert_eq!(bot.refresh(week(None), &week(Some("NY"))), Ok(()));
    assert!(matches!(bot.on_message("anyone latest"), Answer::Chart { .. }));
}

#[test]
fn help_behind_a_leading_space_gets_the_short_usage() {
    let bot = fed_bot();
    assert_eq!(
        text_of_answer(bot.handle_mention(" help")),
        "Usage: @Coronabot <help|latest|<2 letter state abbreviation>|top>"
    );
    assert_eq!(
        text_of_answer(bot.answer(&Command::ShortHelp)),
        "Usage: @Coronabot <help|latest|<2 letter state abbreviation>|top>"
    );
    assert!(text_of_answer(bot.handle_mention("x help")).starts_with("Usage:\n Overall"));
}

#[test]
fn a_message_that_does_not_mention_the_bot_is_not_answered() {
    let bot = fed_bot();
    assert!(matches!(bot.on_message("<@U999> latest"), Answer::Nothing));
    assert!(matches!(bot.on_message("latest"), Answer::Nothing));
    assert!(matches!(bot.on_message("<@U123>"), Answer::Nothing));
    assert_eq!(text_of_answer(bot.on_message("<@U123> top")), bot.top().unwrap());
    assert!(matches!(bot.on_message("<@U123> latest"), Answer::Chart { .. }));
    assert_eq!(
        text_of_answer(bot.on_message("hey <@U123> top")),
        "State data is present but does not contain stats for <@U123> top"
    );
}

#[test]
fn a_failed_chart_costs_nothing_of_the_summary() {
    let bot = fed_bot();
    let target = chart_target("abc");
    for (message, summary) in [
        ("<@U123> latest", bot.latest(None).unwrap().summary),
        ("<@U123> NY", bot.latest(Some("NY")).unwrap().summary),
    ] {
        let text = match bot.on_message(message) {
            Answer::Chart { text, .. } => text,
            other => panic!("{:?}", other),
        };
        assert_eq!(text, summary);
        assert_eq!(
            chart_message(&text, &target, &ChartOutcome::UploadFailed("denied".to_string())),
            format!("{}\nSorry, there was an error storing your plot:\n denied", summary)
        );
        assert_eq!(
            chart_message(&text, &target, &ChartOutcome::RenderFailed("no gnuplot".to_string())),
            format!("{}\nSorry, there was an error generating your plot:\n no gnuplot", summary)
        );
        assert_eq!(
            chart_message(&text, &target, &ChartOutcome::Stored),
            format!("{}\n{}", summary, target.public_url)
        );
    }
}
