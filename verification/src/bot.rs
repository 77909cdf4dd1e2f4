//! The bot: the cache it answers from, and its answers.

use vstd::prelude::*;
use vstd::string::StringExecFns;

use crate::cache::{RefreshError, StatsCache};
use crate::chart::{
    chart_answer, custom_chart, generate_new_cases_chart, is_custom_chart, is_new_cases_chart,
    message_of, ChartOutcome, ChartRequest, ChartTarget, CustomChart,
};
use crate::command::{find_from, find_in, intent_of, parse_command, Command, Intent};
use crate::expr::parsed;
use crate::lexer::{chars_of, ExprError};
use crate::metrics::clamped_rise;
use crate::record::{series_wf, DailyRecord};
use crate::summary::{format_daily, format_high_scores, scores_text, tells_daily, tells_scores};
use crate::scores::HighScores;

verus! {

/// The bot: its identifier in the chat, and the cache it answers from.
#[derive(Debug)]
pub struct Coronabot {
    pub bot_id: String,
    pub cache: StatsCache,
}

/// Why a query has no answer from the data.
#[derive(Clone, Copy, Debug, PartialEq, Eq, Structural)]
pub enum QueryError {
    /// Nothing was published yet, or what was published holds no series
    /// for the query.
    MissingData,
    /// The published data has no such region.
    UnknownRegion,
}

/// The answer to a query for the latest figures.
#[derive(Debug)]
pub struct LatestReply {
    pub summary: String,
    pub chart: ChartRequest,
}

/// What the bot answers to a message.
#[derive(Debug)]
pub enum Answer {
    /// The message is not answered.
    Nothing,
    /// The answer is a text.
    Text(String),
    /// The answer is a text and, on a line of its own, what comes of
    /// drawing the chart. `failures` counts the points of the chart that
    /// could not be computed and are drawn as zero; `unreadable` says why
    /// the text of a custom query wrote no expression, where it wrote
    /// none.
    Chart { text: String, chart: ChartRequest, failures: usize, unreadable: Option<ExprError> },
}

/// How to use the bot.
pub open spec fn usage_text() -> Seq<char> {
    "Usage:\n Overall new positive cases: @coronabot latest\nState new positive cases: @coronabot <state abbreviation>\nCustom chart (beta): @coronabot custom <state abbreviation> y1 <expression>\nCustom charts are aware of these variables: positive, negative, total, dead, hospitalized, pending. If you reference them in the expression, they will be interpolated into the expression. For example (positive/total) for infection rate."@
}

/// How to use the bot, in one line.
pub open spec fn short_usage_text() -> Seq<char> {
    "Usage: @Coronabot <help|latest|<2 letter state abbreviation>|top>"@
}

/// What is said of a custom query without `y1`.
pub open spec fn missing_axis_text() -> Seq<char> {
    "Missing y-axis specifier. Usage: @coronabot custom <state> y1 <expression>"@
}

/// What is said where there is no national data.
pub open spec fn country_missing_text() -> Seq<char> {
    "Sorry, country-level data is missing. Is the API working?"@
}

/// What is said where there is no regional data.
pub open spec fn state_missing_text() -> Seq<char> {
    "Sorry, state-level data is missing. Is the API working?"@
}

/// What is said of a region that the data does not have.
pub open spec fn unknown_state_text(code: Seq<char>) -> Seq<char> {
    "State data is present but does not contain stats for "@ + code
}

/// What is said, in the log, of a text that writes no expression.
pub open spec fn bad_expression_text(error: ExprError) -> Seq<char> {
    match error {
        ExprError::TooLong => "Sorry, that expression is too long."@,
        ExprError::UnexpectedCharacter =>
            "Sorry, that expression holds a character I cannot read."@,
        ExprError::MalformedNumber => "Sorry, that expression holds a number I cannot read."@,
        ExprError::UnknownName =>
            "Sorry, that expression names something I do not know. I know positive, negative, total, dead, hospitalized and pending."@,
        ExprError::Syntax => "Sorry, I could not make sense of that expression."@,
    }
}

/// The title of the chart of new cases of a region.
pub open spec fn cases_title(code: Seq<char>) -> Seq<char> {
    code + " Coronavirus Cases"@
}

/// The title of the custom chart of a region.
pub open spec fn custom_title(code: Seq<char>) -> Seq<char> {
    code + " Custom Chart"@
}

impl Coronabot {
    /// The series that a query for the latest figures is answered from:
    /// the national one for no region, and else the region's. The data is
    /// missing before the first snapshot, and where the snapshot has no
    /// national series; a series without a record is a series.
    pub open spec fn series_for(self, region: Option<Seq<char>>) -> Result<
        Seq<DailyRecord>,
        QueryError,
    > {
        match region {
            None => match self.cache.national() {
                Some(days) => Ok(days),
                None => Err(QueryError::MissingData),
            },
            Some(code) => if self.cache.snapshot() is None {
                Err(QueryError::MissingData)
            } else {
                match self.cache.region(code) {
                    Some(days) => Ok(days),
                    None => Err(QueryError::UnknownRegion),
                }
            },
        }
    }

    /// The title over the latest figures: `U.S.` for the nation, and else
    /// the region's code.
    pub open spec fn geo_title(region: Option<Seq<char>>) -> Seq<char> {
        match region {
            None => "U.S."@,
            Some(code) => code,
        }
    }

    /// What `reply` says of a query for the latest figures.
    pub open spec fn tells_latest(
        self,
        region: Option<Seq<char>>,
        reply: Result<LatestReply, QueryError>,
    ) -> bool {
        match reply {
            Ok(found) => {
                &&& self.series_for(region) matches Ok(series)
                &&& tells_daily(found.summary, series, Self::geo_title(region))
                &&& is_new_cases_chart(found.chart, series, cases_title(Self::geo_title(region)))
            },
            Err(e) => self.series_for(region) == Err::<Seq<DailyRecord>, QueryError>(e),
        }
    }

    /// What `reply` says of a query for the leading regions.
    pub open spec fn tells_top(self, reply: Result<String, QueryError>) -> bool {
        match reply {
            Ok(text) => {
                &&& self.cache.snapshot() matches Some(snapshot)
                &&& exists|scores: HighScores|
                    #[trigger] tells_scores(scores, snapshot.by_region.entries@) && text@
                        == scores_text(scores)
            },
            Err(e) => self.cache.snapshot() is None && e == QueryError::MissingData,
        }
    }

    /// The chart that a custom query is answered with, or why it has none.
    /// A text that writes no expression is charted all the same, with
    /// every point at zero.
    pub open spec fn tells_custom(
        self,
        region: Seq<char>,
        expression: Seq<char>,
        reply: Result<CustomChart, QueryError>,
    ) -> bool {
        match reply {
            Ok(custom) => {
                &&& self.cache.snapshot() is Some
                &&& self.cache.region(region) matches Some(series)
                &&& is_custom_chart(
                    custom,
                    series,
                    custom_title(region),
                    expression,
                    parsed(expression),
                )
            },
            Err(QueryError::MissingData) => self.cache.snapshot() is None,
            Err(QueryError::UnknownRegion) => self.cache.snapshot() is Some && self.cache.region(
                region,
            ) is None,
        }
    }

    /// What the bot answers to what a message asks for.
    pub open spec fn answers(self, intent: Intent, answer: Answer) -> bool {
        match intent {
            Intent::Ignore => answer is Nothing,
            Intent::Help => answer matches Answer::Text(text) && text@ == usage_text(),
            Intent::ShortHelp => answer matches Answer::Text(text) && text@
                == short_usage_text(),
            Intent::MissingAxis => answer matches Answer::Text(text) && text@
                == missing_axis_text(),
            Intent::Latest => match self.series_for(None) {
                Ok(_) => answer matches Answer::Chart { text, chart, failures, unreadable }
                    && failures == 0 && unreadable is None && self.tells_latest(
                    None,
                    Ok(LatestReply { summary: text, chart }),
                ),
                Err(_) => answer matches Answer::Text(text) && text@ == country_missing_text(),
            },
            Intent::Top => match answer {
                Answer::Text(text) => if self.cache.snapshot() is None {
                    text@ == state_missing_text()
                } else {
                    self.tells_top(Ok(text))
                },
                _ => false,
            },
            Intent::Region(code) => match self.series_for(Some(code)) {
                Ok(_) => answer matches Answer::Chart { text, chart, failures, unreadable }
                    && failures == 0 && unreadable is None && self.tells_latest(
                    Some(code),
                    Ok(LatestReply { summary: text, chart }),
                ),
                Err(QueryError::UnknownRegion) => answer matches Answer::Text(text) && text@
                    == unknown_state_text(code),
                Err(_) => answer matches Answer::Text(text) && text@ == state_missing_text(),
            },
            Intent::Custom { region, expression } => match answer {
                Answer::Nothing => false,
                Answer::Text(text) => {
                    ||| self.tells_custom(region, expression, Err(QueryError::MissingData))
                        && text@ == state_missing_text()
                    ||| self.tells_custom(region, expression, Err(QueryError::UnknownRegion))
                        && text@ == unknown_state_text(region)
                },
                Answer::Chart { text, chart, failures, unreadable } => text@ == ""@
                    && self.tells_custom(
                    region,
                    expression,
                    Ok(CustomChart { chart, failures, unreadable }),
                ),
            },
        }
    }

    /// What the bot answers to a message in the chat: what the message asks
    /// for where it mentions the bot, and nothing where it does not.
    pub open spec fn replies(self, text: Seq<char>, answer: Answer) -> bool {
        if find_from(text, self.bot_id@, 0) is Some {
            self.answers(intent_of(text), answer)
        } else {
            answer is Nothing
        }
    }

    /// A bot that has no data yet.
    pub fn new(bot_id: String) -> (bot: Coronabot)
        ensures
            bot.bot_id == bot_id,
            bot.cache.snapshot() is None,
    {
        Coronabot { bot_id, cache: StatsCache::new() }
    }

    /// The rise of a cumulative count from yesterday to today. The source's
    /// counts should never fall but now and then do: a fall counts as no
    /// rise at all. A count that was not reported counts as zero.
    pub fn safe_diff(&self, today: Option<u32>, yesterday: Option<u32>) -> (diff: u32)
        ensures
            diff == clamped_rise(today, yesterday),
    {
        crate::metrics::safe_diff(today, yesterday)
    }

    /// Publishes the snapshot that two feeds make; where a feed is
    /// malformed the bot keeps the data it had.
    pub fn refresh(&mut self, national: Vec<DailyRecord>, regional: &Vec<DailyRecord>) -> (r: Result<
        (),
        RefreshError,
    >)
        ensures
            final(self).bot_id == old(self).bot_id,
            r is Ok <==> series_wf(national@) && series_wf(regional@),
            r is Ok ==> (final(self).cache.snapshot() matches Some(snapshot) && snapshot.national
                == Some(national) && snapshot.by_region.groups(regional@)),
            r matches Err(e) ==> e == RefreshError::Parse && *final(self) == *old(self),
    {
        self.cache.refresh(national, regional)
    }

    /// Whether a message mentions the bot: whether it holds the bot's
    /// identifier. An identifier without a character is held by every
    /// message.
    pub fn is_mentioned(&self, text: &str) -> (mentioned: bool)
        ensures
            mentioned == (find_from(text@, self.bot_id@, 0) is Some),
            self.bot_id@.len() == 0 ==> mentioned,
    {
        let chars = chars_of(text);
        find_in(&chars, self.bot_id.as_str(), 0).is_some()
    }

    /// The latest figures, national for no region and else the region's:
    /// their summary, and the chart of new cases.
    pub fn latest(&self, region: Option<&str>) -> (reply: Result<LatestReply, QueryError>)
        ensures
            self.tells_latest(
                match region {
                    Some(code) => Some(code@),
                    None => None,
                },
                reply,
            ),
            self.cache.snapshot() is None ==> reply matches Err(QueryError::MissingData),
    {
        match region {
            None => {
                let series = match self.cache.get_national() {
                    Some(days) => days,
                    None => {
                        return Err(QueryError::MissingData);
                    },
                };
                let summary = format_daily(series, "U.S.");
                let chart = generate_new_cases_chart(series, "U.S. Coronavirus Cases");
                proof {
                    reveal_strlit("U.S. Coronavirus Cases");
                    reveal_strlit("U.S.");
                    reveal_strlit(" Coronavirus Cases");
                    assert("U.S. Coronavirus Cases"@ =~= cases_title("U.S."@));
                }
                Ok(LatestReply { summary, chart })
            },
            Some(code) => {
                if self.cache.regions().is_none() {
                    return Err(QueryError::MissingData);
                }
                let series = match self.cache.get_region(code) {
                    Some(days) => days,
                    None => {
                        return Err(QueryError::UnknownRegion);
                    },
                };
                let summary = format_daily(series, code);
                let mut title = String::from_str(code);
                title.append(" Coronavirus Cases");
                let chart = generate_new_cases_chart(series, title.as_str());
                Ok(LatestReply { summary, chart })
            },
        }
    }

    /// The regions that lead in mortality and in growth, put into words.
    pub fn top(&self) -> (reply: Result<String, QueryError>)
        ensures
            self.tells_top(reply),
    {
        match self.cache.regions() {
            Some(map) => Ok(format_high_scores(map)),
            None => Err(QueryError::MissingData),
        }
    }

    /// The chart of an expression over the daily rises of a region. A text
    /// that writes no expression is charted with every point at zero.
    pub fn custom(&self, region: &str, expression: &str) -> (reply: Result<CustomChart, QueryError>)
        ensures
            self.tells_custom(region@, expression@, reply),
            self.cache.snapshot() is None ==> reply matches Err(QueryError::MissingData),
    {
        if self.cache.regions().is_none() {
            return Err(QueryError::MissingData);
        }
        let series = match self.cache.get_region(region) {
            Some(days) => days,
            None => {
                return Err(QueryError::UnknownRegion);
            },
        };
        let mut title = String::from_str(region);
        title.append(" Custom Chart");
        Ok(custom_chart(series, title.as_str(), expression))
    }
}

/// What is said, in the log, of a text that writes no expression.
pub fn bad_expression_reply(error: ExprError) -> (text: String)
    ensures
        text@ == bad_expression_text(error),
{
    match error {
        ExprError::TooLong => String::from_str("Sorry, that expression is too long."),
        ExprError::UnexpectedCharacter => String::from_str(
            "Sorry, that expression holds a character I cannot read.",
        ),
        ExprError::MalformedNumber => String::from_str(
            "Sorry, that expression holds a number I cannot read.",
        ),
        ExprError::UnknownName => String::from_str(
            "Sorry, that expression names something I do not know. I know positive, negative, total, dead, hospitalized and pending.",
        ),
        ExprError::Syntax => String::from_str("Sorry, I could not make sense of that expression."),
    }
}

/// What is said of a region that the data does not have.
pub fn unknown_state_reply(code: &str) -> (text: String)
    ensures
        text@ == unknown_state_text(code@),
{
    let mut text = String::from_str("State data is present but does not contain stats for ");
    text.append(code);
    text
}

impl Coronabot {
    /// The answer to what a message asks for.
    pub fn answer(&self, command: &Command) -> (answer: Answer)
        ensures
            self.answers(command@, answer),
    {
        match command {
            Command::Ignore => Answer::Nothing,
            Command::Help => Answer::Text(
                String::from_str(
                    "Usage:\n Overall new positive cases: @coronabot latest\nState new positive cases: @coronabot <state abbreviation>\nCustom chart (beta): @coronabot custom <state abbreviation> y1 <expression>\nCustom charts are aware of these variables: positive, negative, total, dead, hospitalized, pending. If you reference them in the expression, they will be interpolated into the expression. For example (positive/total) for infection rate.",
                ),
            ),
            Command::ShortHelp => Answer::Text(
                String::from_str(
                    "Usage: @Coronabot <help|latest|<2 letter state abbreviation>|top>",
                ),
            ),
            Command::MissingAxis => Answer::Text(
                String::from_str(
                    "Missing y-axis specifier. Usage: @coronabot custom <state> y1 <expression>",
                ),
            ),
            Command::Latest => match self.latest(None) {
                Ok(found) => Answer::Chart {
                    text: found.summary,
                    chart: found.chart,
                    failures: 0,
                    unreadable: None,
                },
                Err(_) => Answer::Text(
                    String::from_str("Sorry, country-level data is missing. Is the API working?"),
                ),
            },
            Command::Top => match self.top() {
                Ok(text) => Answer::Text(text),
                Err(_) => Answer::Text(
                    String::from_str("Sorry, state-level data is missing. Is the API working?"),
                ),
            },
            Command::Region(code) => match self.latest(Some(code.as_str())) {
                Ok(found) => Answer::Chart {
                    text: found.summary,
                    chart: found.chart,
                    failures: 0,
                    unreadable: None,
                },
                Err(QueryError::UnknownRegion) => Answer::Text(unknown_state_reply(code.as_str())),
                Err(_) => Answer::Text(
                    String::from_str("Sorry, state-level data is missing. Is the API working?"),
                ),
            },
            Command::Custom { region, expression } => match self.custom(
                region.as_str(),
                expression.as_str(),
            ) {
                Ok(custom) => Answer::Chart {
                    text: String::from_str(""),
                    chart: custom.chart,
                    failures: custom.failures,
                    unreadable: custom.unreadable,
                },
                Err(QueryError::MissingData) => Answer::Text(
                    String::from_str("Sorry, state-level data is missing. Is the API working?"),
                ),
                Err(QueryError::UnknownRegion) => Answer::Text(
                    unknown_state_reply(region.as_str()),
                ),
            },
        }
    }

    /// The answer to a message in the chat: that of [`Self::handle_mention`]
    /// where the message mentions the bot, and none where it does not.
    pub fn on_message(&self, text: &str) -> (answer: Answer)
        ensures
            self.replies(text@, answer),
    {
        if self.is_mentioned(text) {
            self.handle_mention(text)
        } else {
            Answer::Nothing
        }
    }

    /// The answer to a message that mentions the bot.
    pub fn handle_mention(&self, text: &str) -> (answer: Answer)
        ensures
            self.answers(intent_of(text@), answer),
    {
        let command = parse_command(text);
        self.answer(&command)
    }
}

/// Before the first refresh every query for the latest figures, national
/// or regional, has the same answer: the data is missing.
pub proof fn lemma_no_data_before_refresh(bot: Coronabot, region: Option<Seq<char>>)
    requires
        bot.cache.snapshot() is None,
    ensures
        bot.series_for(region) == Err::<Seq<DailyRecord>, QueryError>(QueryError::MissingData),
        bot.tells_top(Err(QueryError::MissingData)),
        forall|code: Seq<char>, expression: Seq<char>| #[trigger]
            bot.tells_custom(code, expression, Err(QueryError::MissingData)),
{
}

/// A chart that fails costs the user nothing of the summary. Where a
/// message that mentions the bot asks for the latest figures, of the
/// nation or of a region, and the data has the series, the answer holds
/// the summary of that series; and whatever comes of drawing and storing
/// the chart, the message to the user is that summary, a line break, and
/// the address of the chart or the sentence that says what went wrong.
pub proof fn lemma_failed_chart_keeps_the_summary(
    bot: Coronabot,
    message: Seq<char>,
    region: Option<Seq<char>>,
    answer: Answer,
    target: ChartTarget,
    outcome: ChartOutcome,
)
    requires
        bot.replies(message, answer),
        find_from(message, bot.bot_id@, 0) is Some,
        intent_of(message) == (match region {
            None => Intent::Latest,
            Some(code) => Intent::Region(code),
        }),
        bot.series_for(region) is Ok,
    ensures
        answer matches Answer::Chart { text, .. } && tells_daily(
            text,
            bot.series_for(region)->Ok_0,
            Coronabot::geo_title(region),
        ) && message_of(text@, target, outcome) == text@ + "\n"@ + chart_answer(target, outcome),
        answer matches Answer::Chart { text, .. } ==> (outcome matches ChartOutcome::RenderFailed(
            why,
        ) ==> message_of(text@, target, outcome) == text@ + "\n"@
            + "Sorry, there was an error generating your plot:\n "@ + why@),
        answer matches Answer::Chart { text, .. } ==> (outcome matches ChartOutcome::UploadFailed(
            why,
        ) ==> message_of(text@, target, outcome) == text@ + "\n"@
            + "Sorry, there was an error storing your plot:\n "@ + why@),
{
    match answer {
        Answer::Chart { text, .. } => {
            match outcome {
                ChartOutcome::RenderFailed(why) => {
                    assert(text@ + "\n"@ + ("Sorry, there was an error generating your plot:\n "@
                        + why@) =~= text@ + "\n"@
                        + "Sorry, there was an error generating your plot:\n "@ + why@);
                },
                ChartOutcome::UploadFailed(why) => {
                    assert(text@ + "\n"@ + ("Sorry, there was an error storing your plot:\n "@
                        + why@) =~= text@ + "\n"@
                        + "Sorry, there was an error storing your plot:\n "@ + why@);
                },
                ChartOutcome::Stored => {},
            }
        },
        _ => {},
    }
}

} // verus!
