//! The words of an arithmetic expression.
//!
//! An expression is written with decimal numbers, the names of the six
//! counts, the operators `+ - * /` and parentheses, with white space
//! wherever the writer likes.

use vstd::prelude::*;

use crate::ratio::Ratio;
use crate::record::Category;

verus! {

/// Why a text is not an expression.
#[derive(Clone, Copy, Debug, PartialEq, Eq, Structural)]
pub enum ExprError {
    /// The text is longer than [`MAX_EXPRESSION_CHARS`].
    TooLong,
    /// A character that no expression holds.
    UnexpectedCharacter,
    /// A number of more than [`MAX_DIGITS`] digits, or a decimal point with
    /// no digit behind it.
    MalformedNumber,
    /// A word that names none of the counts.
    UnknownName,
    /// The words do not form an expression.
    Syntax,
}

/// One word of an expression.
#[derive(Clone, Copy, Debug)]
pub enum Token {
    Number(Ratio),
    Name(Category),
    Plus,
    Minus,
    Star,
    Slash,
    Open,
    Close,
}

/// The most characters an expression may have. Reading and evaluating an
/// expression descend once for each operand that is nested in another, so
/// the length of the text bounds how deep they go; the limit keeps that
/// depth far from what a thread's stack holds, whoever writes the text.
pub const MAX_EXPRESSION_CHARS: usize = 1024;

/// The most digits a number may have, the digits behind the point counted.
pub const MAX_DIGITS: usize = 18;

pub open spec fn is_digit(c: char) -> bool {
    48 <= c as u32 <= 57
}

pub open spec fn is_letter(c: char) -> bool {
    97 <= c as u32 <= 122 || 65 <= c as u32 <= 90
}

/// Whether a character is white space, as Unicode has it: the space, the
/// controls from the tab to the carriage return, the next line, the
/// no-break space and the spaces of the general punctuation among them.
pub open spec fn is_space(c: char) -> bool {
    let code = c as u32;
    ||| 0x09 <= code <= 0x0d
    ||| code == 0x20
    ||| code == 0x85
    ||| code == 0xa0
    ||| code == 0x1680
    ||| 0x2000 <= code <= 0x200a
    ||| code == 0x2028
    ||| code == 0x2029
    ||| code == 0x202f
    ||| code == 0x205f
    ||| code == 0x3000
}

/// The number that a digit stands for.
pub open spec fn digit_value(c: char) -> int {
    c as u32 as int - 48
}

/// The end of the run of digits that starts at `pos`.
pub open spec fn digits_end(text: Seq<char>, pos: int) -> int
    decreases text.len() - pos,
{
    if 0 <= pos < text.len() && is_digit(text[pos]) {
        digits_end(text, pos + 1)
    } else {
        pos
    }
}

/// The end of the run of letters that starts at `pos`.
pub open spec fn letters_end(text: Seq<char>, pos: int) -> int
    decreases text.len() - pos,
{
    if 0 <= pos < text.len() && is_letter(text[pos]) {
        letters_end(text, pos + 1)
    } else {
        pos
    }
}

/// The number that the digits from `from` up to `to` write in base ten.
pub open spec fn digits_value(text: Seq<char>, from: int, to: int) -> int
    decreases to - from,
{
    if to <= from {
        0
    } else {
        digits_value(text, from, to - 1) * 10 + digit_value(text[to - 1])
    }
}

/// Ten to the power `n`.
pub open spec fn pow10(n: int) -> int
    decreases n,
{
    if n <= 0 {
        1
    } else {
        10 * pow10(n - 1)
    }
}

/// The number that starts at `pos`, and where it ends: digits, then
/// perhaps a point and more digits. A number `12.50` is the fraction
/// `1250 / 100`. `None` for a number that is malformed.
pub open spec fn number_at(text: Seq<char>, pos: int) -> Option<(Ratio, int)> {
    let whole_end = digits_end(text, pos);
    if whole_end < text.len() && text[whole_end] == '.' {
        let end = digits_end(text, whole_end + 1);
        let places = end - (whole_end + 1);
        if places == 0 || (whole_end - pos) + places > MAX_DIGITS {
            None
        } else {
            Some(
                (
                    Ratio {
                        num: (digits_value(text, pos, whole_end) * pow10(places) + digits_value(
                            text,
                            whole_end + 1,
                            end,
                        )) as i64,
                        den: pow10(places) as i64,
                    },
                    end,
                ),
            )
        }
    } else if whole_end - pos > MAX_DIGITS {
        None
    } else {
        Some((Ratio { num: digits_value(text, pos, whole_end) as i64, den: 1 }, whole_end))
    }
}

/// The count that a word names.
pub open spec fn category_named(word: Seq<char>) -> Option<Category> {
    if word == "positive"@ {
        Some(Category::Positive)
    } else if word == "negative"@ {
        Some(Category::Negative)
    } else if word == "total"@ {
        Some(Category::TotalTests)
    } else if word == "dead"@ {
        Some(Category::Deaths)
    } else if word == "hospitalized"@ {
        Some(Category::Hospitalized)
    } else if word == "pending"@ {
        Some(Category::Pending)
    } else {
        None
    }
}

/// The operator or parenthesis that a character writes.
pub open spec fn symbol(c: char) -> Option<Token> {
    if c == '+' {
        Some(Token::Plus)
    } else if c == '-' {
        Some(Token::Minus)
    } else if c == '*' {
        Some(Token::Star)
    } else if c == '/' {
        Some(Token::Slash)
    } else if c == '(' {
        Some(Token::Open)
    } else if c == ')' {
        Some(Token::Close)
    } else {
        None
    }
}

/// A run of digits or letters ends behind where it starts, within the text.
pub proof fn lemma_run_ends(text: Seq<char>, pos: int)
    requires
        0 <= pos <= text.len(),
    ensures
        pos <= digits_end(text, pos) <= text.len(),
        pos <= letters_end(text, pos) <= text.len(),
        pos < text.len() && is_digit(text[pos]) ==> pos < digits_end(text, pos),
        pos < text.len() && is_letter(text[pos]) ==> pos < letters_end(text, pos),
    decreases text.len() - pos,
{
    if pos < text.len() {
        lemma_run_ends(text, pos + 1);
    }
}

/// Puts a word before the words that follow it, where there was no error.
pub open spec fn then_rest(first: Token, rest: Result<Seq<Token>, ExprError>) -> Result<
    Seq<Token>,
    ExprError,
> {
    match rest {
        Ok(tokens) => Ok(seq![first] + tokens),
        Err(e) => Err(e),
    }
}

/// The words of the text from `pos` on.
pub open spec fn words_from(text: Seq<char>, pos: int) -> Result<Seq<Token>, ExprError>
    decreases text.len() - pos,
{
    if pos < 0 || pos >= text.len() {
        Ok(Seq::empty())
    } else if is_space(text[pos]) {
        words_from(text, pos + 1)
    } else if symbol(text[pos]) is Some {
        then_rest(symbol(text[pos])->0, words_from(text, pos + 1))
    } else if is_digit(text[pos]) {
        match number_at(text, pos) {
            Some((value, end)) => {
                proof {
                    lemma_run_ends(text, pos);
                    lemma_run_ends(text, digits_end(text, pos));
                    if digits_end(text, pos) < text.len() {
                        lemma_run_ends(text, digits_end(text, pos) + 1);
                    }
                }
                then_rest(Token::Number(value), words_from(text, end))
            },
            None => Err(ExprError::MalformedNumber),
        }
    } else if is_letter(text[pos]) {
        let end = letters_end(text, pos);
        match category_named(text.subrange(pos, end)) {
            Some(category) => {
                proof {
                    lemma_run_ends(text, pos);
                }
                then_rest(Token::Name(category), words_from(text, end))
            },
            None => Err(ExprError::UnknownName),
        }
    } else {
        Err(ExprError::UnexpectedCharacter)
    }
}

/// The words of a text, or why it has none.
pub open spec fn words_of(text: Seq<char>) -> Result<Seq<Token>, ExprError> {
    if text.len() > MAX_EXPRESSION_CHARS {
        Err(ExprError::TooLong)
    } else {
        words_from(text, 0)
    }
}

/// Ten to the power `n` grows with `n`, and ten to the eighteenth fits in
/// 64 bits.
pub proof fn lemma_pow10(a: int, b: int)
    requires
        0 <= a <= b,
    ensures
        1 <= pow10(a) <= pow10(b),
        pow10(18) == 1_000_000_000_000_000_000,
    decreases b,
{
    reveal_with_fuel(pow10, 20);
    if a < b {
        lemma_pow10(a, b - 1);
    } else if a > 0 {
        lemma_pow10(a - 1, b - 1);
    }
}

/// The characters of a text.
pub fn chars_of(text: &str) -> (chars: Vec<char>)
    ensures
        chars@ == text@,
{
    let mut chars: Vec<char> = Vec::new();
    for c in it: text.chars()
        invariant
            it.seq() == text@,
            chars@ == it.seq().take(it.index()),
    {
        chars.push(c);
        assert(it.seq().take(it.index() + 1) == it.seq().take(it.index()).push(c));
    }
    assert(text@.take(text@.len() as int) == text@);
    chars
}

/// Whether a character is white space, as Unicode has it.
pub fn white_space(c: char) -> (b: bool)
    ensures
        b == is_space(c),
{
    let code = c as u32;
    (0x09 <= code && code <= 0x0d) || code == 0x20 || code == 0x85 || code == 0xa0 || code
        == 0x1680 || (0x2000 <= code && code <= 0x200a) || code == 0x2028 || code == 0x2029
        || code == 0x202f || code == 0x205f || code == 0x3000
}

fn digit_at(text: &Vec<char>, pos: usize) -> (b: bool)
    requires
        pos < text.len(),
    ensures
        b == is_digit(text@[pos as int]),
{
    let code = text[pos] as u32;
    48 <= code && code <= 57
}

fn letter_at(text: &Vec<char>, pos: usize) -> (b: bool)
    requires
        pos < text.len(),
    ensures
        b == is_letter(text@[pos as int]),
{
    let code = text[pos] as u32;
    (97 <= code && code <= 122) || (65 <= code && code <= 90)
}

/// The end of the run of digits that starts at `pos`.
fn scan_digits(text: &Vec<char>, pos: usize) -> (end: usize)
    requires
        pos <= text.len(),
    ensures
        end == digits_end(text@, pos as int),
        pos <= end <= text.len(),
        forall|i: int| pos <= i < end ==> is_digit(#[trigger] text@[i]),
{
    let mut end = pos;
    while end < text.len() && digit_at(text, end)
        invariant
            pos <= end <= text.len(),
            digits_end(text@, pos as int) == digits_end(text@, end as int),
            forall|i: int| pos <= i < end ==> is_digit(#[trigger] text@[i]),
        decreases text.len() - end,
    {
        end += 1;
    }
    end
}

/// The end of the run of letters that starts at `pos`.
fn scan_letters(text: &Vec<char>, pos: usize) -> (end: usize)
    requires
        pos <= text.len(),
    ensures
        end == letters_end(text@, pos as int),
        pos <= end <= text.len(),
{
    let mut end = pos;
    while end < text.len() && letter_at(text, end)
        invariant
            pos <= end <= text.len(),
            letters_end(text@, pos as int) == letters_end(text@, end as int),
        decreases text.len() - end,
    {
        end += 1;
    }
    end
}

/// Writes the digits from `from` up to `to` behind a number of `width`
/// digits. Gives the number so written, and ten to the count of the
/// digits added.
fn append_digits(
    text: &Vec<char>,
    from: usize,
    to: usize,
    start: i64,
    Ghost(width): Ghost<int>,
) -> (r: (i64, i64))
    requires
        from <= to <= text.len(),
        forall|i: int| from <= i < to ==> is_digit(#[trigger] text@[i]),
        0 <= width,
        0 <= start < pow10(width),
        width + (to - from) <= MAX_DIGITS,
    ensures
        r.0 == start * pow10(to - from) + digits_value(text@, from as int, to as int),
        r.1 == pow10(to - from),
        0 <= r.0 < pow10(width + (to - from)),
{
    let mut value = start;
    let mut scale: i64 = 1;
    let mut at = from;
    assert(start * pow10(0) == start) by (nonlinear_arith)
        requires
            pow10(0) == 1,
    ;
    while at < to
        invariant
            from <= at <= to <= text.len(),
            forall|i: int| from <= i < to ==> is_digit(#[trigger] text@[i]),
            0 <= width,
            width + (to - from) <= MAX_DIGITS,
            value == start * pow10(at - from) + digits_value(text@, from as int, at as int),
            scale == pow10(at - from),
            0 <= value < pow10(width + (at - from)),
        decreases to - at,
    {
        let digit = (text[at] as u32 - 48) as i64;
        proof {
            let j = at - from;
            lemma_pow10(width + j + 1, 18);
            lemma_pow10(j + 1, 18);
            assert(start * (10 * pow10(j)) == 10 * (start * pow10(j))) by (nonlinear_arith);
            assert(is_digit(text@[at as int]));
        }
        value = value * 10 + digit;
        scale = scale * 10;
        at += 1;
    }
    (value, scale)
}

/// The number that starts at `pos`, and where it ends.
fn read_number(text: &Vec<char>, pos: usize) -> (r: Option<(Ratio, usize)>)
    requires
        pos < text.len(),
        is_digit(text@[pos as int]),
    ensures
        match r {
            Some((value, end)) => number_at(text@, pos as int) == Some((value, end as int))
                && value.wf() && pos < end <= text.len(),
            None => number_at(text@, pos as int) is None,
        },
{
    let whole_end = scan_digits(text, pos);
    proof {
        lemma_run_ends(text@, pos as int);
    }
    if whole_end < text.len() && text[whole_end] == '.' {
        let end = scan_digits(text, whole_end + 1);
        let places = end - (whole_end + 1);
        if places == 0 || (whole_end - pos) + places > MAX_DIGITS {
            return None;
        }
        proof {
            lemma_pow10(0, 0);
        }
        let (whole, _) = append_digits(text, pos, whole_end, 0, Ghost(0));
        let (num, den) = append_digits(text, whole_end + 1, end, whole, Ghost(whole_end - pos));
        proof {
            lemma_pow10(places as int, 18);
            lemma_pow10((whole_end - pos) + places, 18);
        }
        Some((Ratio { num, den }, end))
    } else if whole_end - pos > MAX_DIGITS {
        None
    } else {
        proof {
            lemma_pow10(0, 0);
            lemma_pow10(whole_end - pos, 18);
        }
        let (num, _) = append_digits(text, pos, whole_end, 0, Ghost(0));
        Some((Ratio { num, den: 1 }, whole_end))
    }
}

/// Whether `pattern` stands in `text` at `from`.
pub fn stands_at(text: &Vec<char>, from: usize, pattern: &Vec<char>) -> (b: bool)
    requires
        from + pattern.len() <= text.len(),
    ensures
        b == (text@.subrange(from as int, from + pattern.len()) == pattern@),
{
    let n = pattern.len();
    let mut i: usize = 0;
    while i < n
        invariant
            n == pattern.len(),
            from + n <= text.len(),
            i <= n,
            forall|j: int| 0 <= j < i ==> text@[from + j] == pattern@[j],
        decreases n - i,
    {
        if text[from + i] != pattern[i] {
            assert(text@.subrange(from as int, from + n)[i as int] != pattern@[i as int]);
            return false;
        }
        i += 1;
    }
    assert(text@.subrange(from as int, from + n) =~= pattern@);
    true
}

/// Whether the characters from `from` up to `to` spell `word`.
pub fn spells(text: &Vec<char>, from: usize, to: usize, word: &str) -> (b: bool)
    requires
        from <= to <= text.len(),
    ensures
        b == (text@.subrange(from as int, to as int) == word@),
{
    let letters = chars_of(word);
    to - from == letters.len() && stands_at(text, from, &letters)
}

/// The count that the characters from `from` up to `to` name.
fn read_name(text: &Vec<char>, from: usize, to: usize) -> (r: Option<Category>)
    requires
        from <= to <= text.len(),
    ensures
        r == category_named(text@.subrange(from as int, to as int)),
{
    if spells(text, from, to, "positive") {
        Some(Category::Positive)
    } else if spells(text, from, to, "negative") {
        Some(Category::Negative)
    } else if spells(text, from, to, "total") {
        Some(Category::TotalTests)
    } else if spells(text, from, to, "dead") {
        Some(Category::Deaths)
    } else if spells(text, from, to, "hospitalized") {
        Some(Category::Hospitalized)
    } else if spells(text, from, to, "pending") {
        Some(Category::Pending)
    } else {
        None
    }
}

/// The operator or parenthesis that a character writes.
fn read_symbol(c: char) -> (r: Option<Token>)
    ensures
        r == symbol(c),
{
    if c == '+' {
        Some(Token::Plus)
    } else if c == '-' {
        Some(Token::Minus)
    } else if c == '*' {
        Some(Token::Star)
    } else if c == '/' {
        Some(Token::Slash)
    } else if c == '(' {
        Some(Token::Open)
    } else if c == ')' {
        Some(Token::Close)
    } else {
        None
    }
}

/// Every number among the words is a well-formed fraction.
pub open spec fn words_wf(words: Seq<Token>) -> bool {
    forall|i: int|
        0 <= i < words.len() ==> ((#[trigger] words[i]) matches Token::Number(value)
            ==> value.wf())
}

/// What the words read so far and the words still to read make together.
pub open spec fn read_then(read: Seq<Token>, rest: Result<Seq<Token>, ExprError>) -> Result<
    Seq<Token>,
    ExprError,
> {
    match rest {
        Ok(tokens) => Ok(read + tokens),
        Err(e) => Err(e),
    }
}

/// The words of a text, or why it has none.
pub fn tokenize(text: &str) -> (r: Result<Vec<Token>, ExprError>)
    ensures
        match r {
            Ok(words) => words_of(text@) == Ok::<Seq<Token>, ExprError>(words@) && words_wf(
                words@,
            ) && words.len() <= MAX_EXPRESSION_CHARS,
            Err(e) => words_of(text@) == Err::<Seq<Token>, ExprError>(e),
        },
{
    let chars = chars_of(text);
    let n = chars.len();
    if n > MAX_EXPRESSION_CHARS {
        return Err(ExprError::TooLong);
    }
    let mut words: Vec<Token> = Vec::new();
    let mut pos: usize = 0;
    assert(Seq::<Token>::empty() + words_from(chars@, 0)->Ok_0 =~= words_from(chars@, 0)->Ok_0);
    while pos < n
        invariant
            n == chars.len(),
            n <= MAX_EXPRESSION_CHARS,
            chars@ == text@,
            pos <= n,
            words.len() <= pos,
            words_wf(words@),
            words_from(chars@, 0) == read_then(words@, words_from(chars@, pos as int)),
        decreases n - pos,
    {
        let c = chars[pos];
        let ghost before = words@;
        let ghost at = pos as int;
        if white_space(c) {
            pos += 1;
        } else if let Some(token) = read_symbol(c) {
            words.push(token);
            pos += 1;
            assert(forall|rest: Seq<Token>| before + (seq![token] + rest) =~= before.push(token) + rest);
        } else if digit_at(&chars, pos) {
            match read_number(&chars, pos) {
                Some((value, end)) => {
                    proof {
                        lemma_run_ends(chars@, at);
                    }
                    let token = Token::Number(value);
                    words.push(token);
                    pos = end;
                    assert(forall|rest: Seq<Token>| before + (seq![token] + rest) =~= before.push(token) + rest);
                },
                None => {
                    return Err(ExprError::MalformedNumber);
                },
            }
        } else if letter_at(&chars, pos) {
            let end = scan_letters(&chars, pos);
            match read_name(&chars, pos, end) {
                Some(category) => {
                    proof {
                        lemma_run_ends(chars@, at);
                    }
                    let token = Token::Name(category);
                    words.push(token);
                    pos = end;
                    assert(forall|rest: Seq<Token>| before + (seq![token] + rest) =~= before.push(token) + rest);
                },
                None => {
                    return Err(ExprError::UnknownName);
                },
            }
        } else {
            return Err(ExprError::UnexpectedCharacter);
        }
    }
    assert(words@ + Seq::<Token>::empty() =~= words@);
    Ok(words)
}

} // verus!
