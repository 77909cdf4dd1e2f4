//! What a message asks of the bot.
//!
//! A message that mentions the bot reads `<mention> <request>`. The words
//! of a message are what stands between its white space, as Unicode has
//! it.

use vstd::prelude::*;

use crate::lexer::{chars_of, is_space, spells, stands_at, white_space};

verus! {

/// What a message asks for.
#[derive(Debug)]
pub enum Command {
    /// The message asks for nothing: it holds no space.
    Ignore,
    /// How to use the bot.
    Help,
    /// How to use the bot, in one line.
    ShortHelp,
    /// A custom chart was asked for without `y1` before the expression.
    MissingAxis,
    /// The chart of an expression for a region.
    Custom { region: String, expression: String },
    /// The latest national figures.
    Latest,
    /// The regions that lead the rankings.
    Top,
    /// The latest figures of a region.
    Region(String),
}

/// What a message asks for, its texts as sequences of characters.
pub enum Intent {
    Ignore,
    Help,
    ShortHelp,
    MissingAxis,
    Custom { region: Seq<char>, expression: Seq<char> },
    Latest,
    Top,
    Region(Seq<char>),
}

impl View for Command {
    type V = Intent;

    open spec fn view(&self) -> Intent {
        match self {
            Command::Ignore => Intent::Ignore,
            Command::Help => Intent::Help,
            Command::ShortHelp => Intent::ShortHelp,
            Command::MissingAxis => Intent::MissingAxis,
            Command::Custom { region, expression } => Intent::Custom {
                region: region@,
                expression: expression@,
            },
            Command::Latest => Intent::Latest,
            Command::Top => Intent::Top,
            Command::Region(code) => Intent::Region(code@),
        }
    }
}

/// The first place at or behind `from` where `pattern` stands in `text`.
/// A pattern without a character stands at every place of the text, its
/// end included.
pub open spec fn find_from(text: Seq<char>, pattern: Seq<char>, from: int) -> Option<int>
    decreases text.len() - from,
{
    if from < 0 || from + pattern.len() > text.len() {
        None
    } else if pattern.len() == 0 {
        Some(from)
    } else if text.subrange(from, from + pattern.len()) == pattern {
        Some(from)
    } else {
        find_from(text, pattern, from + 1)
    }
}

/// A pattern without a character stands at the start of every text.
pub proof fn lemma_nothing_stands_everywhere(text: Seq<char>)
    ensures
        find_from(text, Seq::<char>::empty(), 0) == Some(0int),
{
}

/// The end of the run of spaces that starts at `pos`.
pub open spec fn spaces_end(text: Seq<char>, pos: int) -> int
    decreases text.len() - pos,
{
    if 0 <= pos < text.len() && is_space(text[pos]) {
        spaces_end(text, pos + 1)
    } else {
        pos
    }
}

/// The end of the word that starts at `pos`.
pub open spec fn word_end(text: Seq<char>, pos: int) -> int
    decreases text.len() - pos,
{
    if 0 <= pos < text.len() && !is_space(text[pos]) {
        word_end(text, pos + 1)
    } else {
        pos
    }
}

/// A run of spaces and a word end behind where they start, within the text.
pub proof fn lemma_runs(text: Seq<char>, pos: int)
    requires
        0 <= pos <= text.len(),
    ensures
        pos <= spaces_end(text, pos) <= text.len(),
        pos <= word_end(text, pos) <= text.len(),
        pos < text.len() && !is_space(text[pos]) ==> pos < word_end(text, pos),
        spaces_end(text, pos) < text.len() ==> !is_space(text[spaces_end(text, pos)]),
    decreases text.len() - pos,
{
    if pos < text.len() {
        lemma_runs(text, pos + 1);
    }
}

/// The words of `text` from `pos` on, each given by where it starts and
/// where it ends.
pub open spec fn word_spans(text: Seq<char>, pos: int) -> Seq<(int, int)>
    decreases text.len() - pos,
{
    if pos < 0 || pos > text.len() {
        Seq::empty()
    } else {
        let start = spaces_end(text, pos);
        if start >= text.len() {
            Seq::empty()
        } else {
            let end = word_end(text, start);
            proof {
                lemma_runs(text, pos);
                lemma_runs(text, start);
            }
            seq![(start, end)] + word_spans(text, end)
        }
    }
}

/// Word `i` of a text.
pub open spec fn word(text: Seq<char>, i: int) -> Seq<char> {
    text.subrange(word_spans(text, 0)[i].0, word_spans(text, 0)[i].1)
}

/// What is left of a text from `from` on; nothing where the text ends
/// before.
pub open spec fn rest_from(text: Seq<char>, from: int) -> Seq<char> {
    if 0 <= from <= text.len() {
        text.subrange(from, text.len() as int)
    } else {
        Seq::empty()
    }
}

/// What a message asks for.
///
/// A message without a space asks for nothing. One whose second word is
/// `help` asks for help. One of more than three words whose second word is
/// `custom` asks for a custom chart: the third word names the region, and
/// the expression starts three characters behind the first `y1` of the
/// message. Any other message is read from behind its first space on:
/// `latest`, `help` (which a message can only be that starts with its
/// space), `top`, or the code of a region.
pub open spec fn intent_of(text: Seq<char>) -> Intent {
    match find_from(text, seq![' '], 0) {
        None => Intent::Ignore,
        Some(space) => {
            let spans = word_spans(text, 0);
            if spans.len() > 1 && word(text, 1) == "help"@ {
                Intent::Help
            } else if spans.len() > 3 && word(text, 1) == "custom"@ {
                match find_from(text, "y1"@, 0) {
                    None => Intent::MissingAxis,
                    Some(axis) => Intent::Custom {
                        region: word(text, 2),
                        expression: rest_from(text, axis + 3),
                    },
                }
            } else if rest_from(text, space + 1) == "latest"@ {
                Intent::Latest
            } else if rest_from(text, space + 1) == "help"@ {
                Intent::ShortHelp
            } else if rest_from(text, space + 1) == "top"@ {
                Intent::Top
            } else {
                Intent::Region(rest_from(text, space + 1))
            }
        },
    }
}

/// The first place at or behind `from` where `pattern` stands in `text`.
pub fn find_in(text: &Vec<char>, pattern: &str, from: usize) -> (found: Option<usize>)
    ensures
        match found {
            Some(at) => find_from(text@, pattern@, from as int) == Some(at as int) && from <= at
                && at + pattern@.len() <= text.len(),
            None => find_from(text@, pattern@, from as int) is None,
        },
{
    let letters = chars_of(pattern);
    let width = letters.len();
    let n = text.len();
    if width > n {
        return None;
    }
    if width == 0 {
        return if from <= n {
            Some(from)
        } else {
            None
        };
    }
    let mut at = from;
    while at <= n - width
        invariant
            n == text.len(),
            letters@ == pattern@,
            width == letters.len(),
            0 < width <= n,
            from <= at,
            find_from(text@, pattern@, from as int) == find_from(text@, pattern@, at as int),
        decreases n - at,
    {
        if stands_at(text, at, &letters) {
            return Some(at);
        }
        at += 1;
    }
    None
}

/// The text of the characters from `from` up to `to`.
pub fn text_of(chars: &Vec<char>, from: usize, to: usize) -> (text: String)
    requires
        from <= to <= chars.len(),
    ensures
        text@ == chars@.subrange(from as int, to as int),
{
    let mut text = String::new();
    let mut i = from;
    while i < to
        invariant
            from <= i <= to <= chars.len(),
            text@ == chars@.subrange(from as int, i as int),
        decreases to - i,
    {
        text.push(chars[i]);
        assert(chars@.subrange(from as int, i + 1) == chars@.subrange(from as int, i as int).push(
            chars@[i as int],
        ));
        i += 1;
    }
    text
}

/// Whether the character at `pos` is white space.
fn space_at(text: &Vec<char>, pos: usize) -> (b: bool)
    requires
        pos < text.len(),
    ensures
        b == is_space(text@[pos as int]),
{
    white_space(text[pos])
}

/// The first words of a text, at most `limit` of them, each given by where
/// it starts and where it ends.
pub fn first_words(text: &Vec<char>, limit: usize) -> (spans: Vec<(usize, usize)>)
    ensures
        spans.len() <= limit,
        spans.len() <= word_spans(text@, 0).len(),
        spans.len() < limit ==> spans.len() == word_spans(text@, 0).len(),
        forall|i: int|
            0 <= i < spans.len() ==> {
                &&& (#[trigger] spans[i]).0 == word_spans(text@, 0)[i].0
                &&& spans[i].1 == word_spans(text@, 0)[i].1
                &&& spans[i].0 <= spans[i].1 <= text.len()
            },
{
    let mut spans: Vec<(usize, usize)> = Vec::new();
    let n = text.len();
    let mut pos: usize = 0;
    let ghost all = word_spans(text@, 0);
    assert(Seq::<(int, int)>::empty() + all =~= all);
    while spans.len() < limit
        invariant
            n == text.len(),
            pos <= n,
            spans.len() <= limit,
            all == word_spans(text@, 0),
            all == all.subrange(0, spans.len() as int) + word_spans(text@, pos as int),
            spans.len() <= all.len(),
            forall|i: int|
                0 <= i < spans.len() ==> {
                    &&& (#[trigger] spans[i]).0 == all[i].0
                    &&& spans[i].1 == all[i].1
                    &&& spans[i].0 <= spans[i].1 <= n
                },
        decreases n - pos, limit - spans.len(),
    {
        let mut start = pos;
        while start < n && space_at(text, start)
            invariant
                n == text.len(),
                pos <= start <= n,
                spaces_end(text@, pos as int) == spaces_end(text@, start as int),
            decreases n - start,
        {
            start += 1;
        }
        if start >= n {
            assert(word_spans(text@, pos as int) =~= Seq::<(int, int)>::empty());
            assert(all =~= all.subrange(0, spans.len() as int));
            return spans;
        }
        let mut end = start;
        while end < n && !space_at(text, end)
            invariant
                n == text.len(),
                start <= end <= n,
                word_end(text@, start as int) == word_end(text@, end as int),
            decreases n - end,
        {
            end += 1;
        }
        proof {
            lemma_runs(text@, start as int);
            let found = spans.len() as int;
            let rest = word_spans(text@, end as int);
            assert(word_spans(text@, pos as int) == seq![(start as int, end as int)] + rest);
            assert(all[found] == (start as int, end as int));
            assert(all.subrange(0, found + 1) =~= all.subrange(0, found).push(
                (start as int, end as int),
            ));
            assert(all =~= all.subrange(0, found + 1) + rest);
        }
        spans.push((start, end));
        pos = end;
    }
    spans
}

/// What a message asks for.
pub fn parse_command(text: &str) -> (command: Command)
    ensures
        command@ == intent_of(text@),
{
    let chars = chars_of(text);
    let n = chars.len();
    proof {
        reveal_strlit(" ");
        assert(" "@ =~= seq![' ']);
    }
    let space = match find_in(&chars, " ", 0) {
        Some(at) => at,
        None => {
            return Command::Ignore;
        },
    };
    let spans = first_words(&chars, 4);
    if spans.len() > 1 && spells(&chars, spans[1].0, spans[1].1, "help") {
        return Command::Help;
    }
    if spans.len() > 3 && spells(&chars, spans[1].0, spans[1].1, "custom") {
        return match find_in(&chars, "y1", 0) {
            None => Command::MissingAxis,
            Some(axis) => {
                proof {
                    reveal_strlit("y1");
                }
                let expression = if n - axis >= 3 {
                    text_of(&chars, axis + 3, n)
                } else {
                    String::new()
                };
                Command::Custom { region: text_of(&chars, spans[2].0, spans[2].1), expression }
            },
        };
    }
    if spells(&chars, space + 1, n, "latest") {
        Command::Latest
    } else if spells(&chars, space + 1, n, "help") {
        Command::ShortHelp
    } else if spells(&chars, space + 1, n, "top") {
        Command::Top
    } else {
        Command::Region(text_of(&chars, space + 1, n))
    }
}

} // verus!
