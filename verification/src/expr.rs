//! Arithmetic expressions over the counts of a day.
//!
//! The grammar, from the loosest binding to the tightest:
//!
//! ```text
//! sum     := product (('+' | '-') product)*
//! product := atom (('*' | '/') atom)*
//! atom    := number | name | '-' atom | '(' sum ')'
//! ```
//!
//! Operators of one level group from the left. An expression is evaluated
//! in exact fractions, each result in lowest terms; a division by zero and
//! a step whose parts do not fit in 128 bits are errors of the evaluation,
//! not of the expression.

use vstd::prelude::*;

use crate::lexer::{tokenize, words_of, words_wf, ExprError, Token};
use crate::ratio::{Frac, Ratio};
use crate::wide::{difference_of, product_of, quotient_of, sum_of, Wide};
use crate::record::{reported, reported_or_zero, Category, DailyRecord};

verus! {

/// An arithmetic expression.
#[derive(Debug)]
pub enum Expr {
    Number(Ratio),
    Variable(Category),
    Negate(Box<Expr>),
    Sum(Box<Expr>, Box<Expr>),
    Difference(Box<Expr>, Box<Expr>),
    Product(Box<Expr>, Box<Expr>),
    Quotient(Box<Expr>, Box<Expr>),
}

/// Why an expression has no value on some day.
#[derive(Clone, Copy, Debug, PartialEq, Eq, Structural)]
pub enum EvalError {
    /// A division by zero.
    DivisionByZero,
    /// A step of the computing with a part that does not fit in 128 bits.
    Overflow,
}

/// What was computed, or the error that a part of it did not fit.
pub open spec fn held(value: Option<Frac>) -> Result<Frac, EvalError> {
    match value {
        Some(v) => Ok(v),
        None => Err(EvalError::Overflow),
    }
}

impl Expr {
    /// Every number in the expression is a well-formed fraction.
    pub open spec fn wf(self) -> bool
        decreases self,
    {
        match self {
            Expr::Number(value) => value.wf(),
            Expr::Variable(_) => true,
            Expr::Negate(a) => a.wf(),
            Expr::Sum(a, b) => a.wf() && b.wf(),
            Expr::Difference(a, b) => a.wf() && b.wf(),
            Expr::Product(a, b) => a.wf() && b.wf(),
            Expr::Quotient(a, b) => a.wf() && b.wf(),
        }
    }

    /// The value of the expression with each name standing for that count
    /// of `day`, a count that was not reported standing for zero. A number
    /// stands for itself as it is written; a sum, a difference, a product
    /// and a quotient are in lowest terms. The left operand is evaluated
    /// first, and the first error is the result.
    pub open spec fn value(self, day: DailyRecord) -> Result<Frac, EvalError>
        decreases self,
    {
        match self {
            Expr::Number(value) => Ok(value@),
            Expr::Variable(category) => Ok(Frac::whole(reported(day.count(category)))),
            Expr::Negate(a) => match a.value(day) {
                Ok(x) => Ok(x.negated()),
                Err(e) => Err(e),
            },
            Expr::Sum(a, b) => match a.value(day) {
                Ok(x) => match b.value(day) {
                    Ok(y) => held(sum_of(x, y)),
                    Err(e) => Err(e),
                },
                Err(e) => Err(e),
            },
            Expr::Difference(a, b) => match a.value(day) {
                Ok(x) => match b.value(day) {
                    Ok(y) => held(difference_of(x, y)),
                    Err(e) => Err(e),
                },
                Err(e) => Err(e),
            },
            Expr::Product(a, b) => match a.value(day) {
                Ok(x) => match b.value(day) {
                    Ok(y) => held(product_of(x, y)),
                    Err(e) => Err(e),
                },
                Err(e) => Err(e),
            },
            Expr::Quotient(a, b) => match a.value(day) {
                Ok(x) => match b.value(day) {
                    Ok(y) => if y.num == 0 {
                        Err(EvalError::DivisionByZero)
                    } else {
                        held(quotient_of(x, y))
                    },
                    Err(e) => Err(e),
                },
                Err(e) => Err(e),
            },
        }
    }

    /// The value of the expression on `day`.
    pub fn eval(&self, day: &DailyRecord) -> (r: Result<Wide, EvalError>)
        requires
            self.wf(),
        ensures
            match r {
                Ok(value) => self.value(*day) == Ok::<Frac, EvalError>(value@) && value.wf(),
                Err(e) => self.value(*day) == Err::<Frac, EvalError>(e),
            },
        decreases self,
    {
        match self {
            Expr::Number(value) => Ok(Wide::from_ratio(value)),
            Expr::Variable(category) => Ok(Wide::from_count(reported_or_zero(day.get(*category)))),
            Expr::Negate(a) => {
                let x = a.eval(day)?;
                Ok(x.negated())
            },
            Expr::Sum(a, b) => {
                let x = a.eval(day)?;
                let y = b.eval(day)?;
                lift(x.plus(&y))
            },
            Expr::Difference(a, b) => {
                let x = a.eval(day)?;
                let y = b.eval(day)?;
                lift(x.minus(&y))
            },
            Expr::Product(a, b) => {
                let x = a.eval(day)?;
                let y = b.eval(day)?;
                lift(x.times(&y))
            },
            Expr::Quotient(a, b) => {
                let x = a.eval(day)?;
                let y = b.eval(day)?;
                if y.num == 0 {
                    Err(EvalError::DivisionByZero)
                } else {
                    lift(x.over(&y))
                }
            },
        }
    }
}

/// A fraction that was computed, or the error that it did not fit.
fn lift(value: Option<Wide>) -> (r: Result<Wide, EvalError>)
    ensures
        r == (match value {
            Some(x) => Ok::<Wide, EvalError>(x),
            None => Err::<Wide, EvalError>(EvalError::Overflow),
        }),
{
    match value {
        Some(x) => Ok(x),
        None => Err(EvalError::Overflow),
    }
}

/// What a rule of the grammar reads: an expression and the place behind it.
pub type Parsed = Result<(Expr, int), ExprError>;

/// The atom that starts at word `pos`.
pub open spec fn atom_at(words: Seq<Token>, pos: int) -> Parsed
    decreases words.len() - pos, 0int,
{
    if pos < 0 || pos >= words.len() {
        Err(ExprError::Syntax)
    } else {
        match words[pos] {
            Token::Number(value) => Ok((Expr::Number(value), pos + 1)),
            Token::Name(category) => Ok((Expr::Variable(category), pos + 1)),
            Token::Minus => match atom_at(words, pos + 1) {
                Ok((inner, next)) => Ok((Expr::Negate(Box::new(inner)), next)),
                Err(e) => Err(e),
            },
            Token::Open => match sum_at(words, pos + 1) {
                Ok((inner, next)) => if 0 <= next < words.len() && words[next] is Close {
                    Ok((inner, next + 1))
                } else {
                    Err(ExprError::Syntax)
                },
                Err(e) => Err(e),
            },
            _ => Err(ExprError::Syntax),
        }
    }
}

/// The product that starts at word `pos`.
pub open spec fn product_at(words: Seq<Token>, pos: int) -> Parsed
    decreases words.len() - pos, 2int,
{
    match atom_at(words, pos) {
        Ok((left, next)) => if pos < next <= words.len() {
            product_after(words, left, next)
        } else {
            Err(ExprError::Syntax)
        },
        Err(e) => Err(e),
    }
}

/// The product whose factors read so far make `left`, and whose next
/// operator, if it has one, is word `pos`.
///
/// The test that a factor ends behind where it starts, here and in the
/// other rules, is there for the definition to be well founded: it never
/// fails, as [`lemma_rules_advance`] shows.
pub open spec fn product_after(words: Seq<Token>, left: Expr, pos: int) -> Parsed
    decreases words.len() - pos, 1int,
{
    if 0 <= pos < words.len() && (words[pos] is Star || words[pos] is Slash) {
        match atom_at(words, pos + 1) {
            Ok((right, next)) => if pos < next <= words.len() {
                product_after(
                    words,
                    if words[pos] is Star {
                        Expr::Product(Box::new(left), Box::new(right))
                    } else {
                        Expr::Quotient(Box::new(left), Box::new(right))
                    },
                    next,
                )
            } else {
                Err(ExprError::Syntax)
            },
            Err(e) => Err(e),
        }
    } else {
        Ok((left, pos))
    }
}

/// The sum that starts at word `pos`.
pub open spec fn sum_at(words: Seq<Token>, pos: int) -> Parsed
    decreases words.len() - pos, 4int,
{
    match product_at(words, pos) {
        Ok((left, next)) => if pos < next <= words.len() {
            sum_after(words, left, next)
        } else {
            Err(ExprError::Syntax)
        },
        Err(e) => Err(e),
    }
}

/// The sum whose terms read so far make `left`, and whose next operator,
/// if it has one, is word `pos`.
pub open spec fn sum_after(words: Seq<Token>, left: Expr, pos: int) -> Parsed
    decreases words.len() - pos, 3int,
{
    if 0 <= pos < words.len() && (words[pos] is Plus || words[pos] is Minus) {
        match product_at(words, pos + 1) {
            Ok((right, next)) => if pos < next <= words.len() {
                sum_after(
                    words,
                    if words[pos] is Plus {
                        Expr::Sum(Box::new(left), Box::new(right))
                    } else {
                        Expr::Difference(Box::new(left), Box::new(right))
                    },
                    next,
                )
            } else {
                Err(ExprError::Syntax)
            },
            Err(e) => Err(e),
        }
    } else {
        Ok((left, pos))
    }
}

/// The expression that the words form: a sum that takes all of them.
pub open spec fn expression_of(words: Seq<Token>) -> Result<Expr, ExprError> {
    match sum_at(words, 0) {
        Ok((whole, next)) => if next == words.len() {
            Ok(whole)
        } else {
            Err(ExprError::Syntax)
        },
        Err(e) => Err(e),
    }
}

/// The expression that a text writes, or why it writes none.
pub open spec fn parsed(text: Seq<char>) -> Result<Expr, ExprError> {
    match words_of(text) {
        Ok(words) => expression_of(words),
        Err(e) => Err(e),
    }
}

/// What the executable rules give for what the grammar says.
pub open spec fn reads(r: Result<(Expr, usize), ExprError>, rule: Parsed, from: int, len: int) -> bool {
    match r {
        Ok((e, next)) => rule == Ok::<(Expr, int), ExprError>((e, next as int)) && e.wf() && from
            <= next <= len,
        Err(err) => rule == Err::<(Expr, int), ExprError>(err),
    }
}

fn parse_atom(words: &Vec<Token>, pos: usize) -> (r: Result<(Expr, usize), ExprError>)
    requires
        words_wf(words@),
        pos <= words.len(),
    ensures
        reads(r, atom_at(words@, pos as int), pos + 1, words.len() as int),
    decreases words.len() - pos, 0int,
{
    if pos >= words.len() {
        return Err(ExprError::Syntax);
    }
    match words[pos] {
        Token::Number(value) => Ok((Expr::Number(value), pos + 1)),
        Token::Name(category) => Ok((Expr::Variable(category), pos + 1)),
        Token::Minus => {
            let (inner, next) = parse_atom(words, pos + 1)?;
            Ok((Expr::Negate(Box::new(inner)), next))
        },
        Token::Open => {
            let (inner, next) = parse_sum(words, pos + 1)?;
            if next < words.len() && is_close(&words[next]) {
                Ok((inner, next + 1))
            } else {
                Err(ExprError::Syntax)
            }
        },
        _ => Err(ExprError::Syntax),
    }
}

fn is_close(word: &Token) -> (b: bool)
    ensures
        b == (*word is Close),
{
    match word {
        Token::Close => true,
        _ => false,
    }
}

fn parse_product(words: &Vec<Token>, pos: usize) -> (r: Result<(Expr, usize), ExprError>)
    requires
        words_wf(words@),
        pos <= words.len(),
    ensures
        reads(r, product_at(words@, pos as int), pos + 1, words.len() as int),
    decreases words.len() - pos, 2int,
{
    let (left, next) = parse_atom(words, pos)?;
    parse_product_after(words, left, next)
}

fn parse_product_after(words: &Vec<Token>, left: Expr, pos: usize) -> (r: Result<
    (Expr, usize),
    ExprError,
>)
    requires
        words_wf(words@),
        pos <= words.len(),
        left.wf(),
    ensures
        reads(r, product_after(words@, left, pos as int), pos as int, words.len() as int),
    decreases words.len() - pos, 1int,
{
    if pos >= words.len() {
        return Ok((left, pos));
    }
    match words[pos] {
        Token::Star => {
            let (right, next) = parse_atom(words, pos + 1)?;
            parse_product_after(words, Expr::Product(Box::new(left), Box::new(right)), next)
        },
        Token::Slash => {
            let (right, next) = parse_atom(words, pos + 1)?;
            parse_product_after(words, Expr::Quotient(Box::new(left), Box::new(right)), next)
        },
        _ => Ok((left, pos)),
    }
}

fn parse_sum(words: &Vec<Token>, pos: usize) -> (r: Result<(Expr, usize), ExprError>)
    requires
        words_wf(words@),
        pos <= words.len(),
    ensures
        reads(r, sum_at(words@, pos as int), pos + 1, words.len() as int),
    decreases words.len() - pos, 4int,
{
    let (left, next) = parse_product(words, pos)?;
    parse_sum_after(words, left, next)
}

fn parse_sum_after(words: &Vec<Token>, left: Expr, pos: usize) -> (r: Result<
    (Expr, usize),
    ExprError,
>)
    requires
        words_wf(words@),
        pos <= words.len(),
        left.wf(),
    ensures
        reads(r, sum_after(words@, left, pos as int), pos as int, words.len() as int),
    decreases words.len() - pos, 3int,
{
    if pos >= words.len() {
        return Ok((left, pos));
    }
    match words[pos] {
        Token::Plus => {
            let (right, next) = parse_product(words, pos + 1)?;
            parse_sum_after(words, Expr::Sum(Box::new(left), Box::new(right)), next)
        },
        Token::Minus => {
            let (right, next) = parse_product(words, pos + 1)?;
            parse_sum_after(words, Expr::Difference(Box::new(left), Box::new(right)), next)
        },
        _ => Ok((left, pos)),
    }
}

/// The expression that a text writes, or why it writes none.
pub fn parse_expression(text: &str) -> (r: Result<Expr, ExprError>)
    ensures
        r == parsed(text@),
        r matches Ok(e) ==> e.wf(),
{
    let words = tokenize(text)?;
    let (whole, next) = parse_sum(&words, 0)?;
    if next == words.len() {
        Ok(whole)
    } else {
        Err(ExprError::Syntax)
    }
}

/// What a rule reads ends within the words, at or behind `from`.
pub open spec fn ends_within(rule: Parsed, from: int, len: int) -> bool {
    rule matches Ok((_, next)) ==> from <= next <= len
}

/// Every rule of the grammar ends behind where it starts, within the
/// words: an atom, a product and a sum take at least one word, and what
/// follows a first operand takes none or more. So the tests in the rules
/// never fail.
pub proof fn lemma_rules_advance(words: Seq<Token>, left: Expr, pos: int)
    requires
        0 <= pos <= words.len(),
    ensures
        ends_within(atom_at(words, pos), pos + 1, words.len() as int),
        ends_within(product_after(words, left, pos), pos, words.len() as int),
        ends_within(product_at(words, pos), pos + 1, words.len() as int),
        ends_within(sum_after(words, left, pos), pos, words.len() as int),
        ends_within(sum_at(words, pos), pos + 1, words.len() as int),
{
    lemma_rule_advances(words, left, pos, 0);
    lemma_rule_advances(words, left, pos, 1);
    lemma_rule_advances(words, left, pos, 2);
    lemma_rule_advances(words, left, pos, 3);
    lemma_rule_advances(words, left, pos, 4);
}

/// One rule of the grammar ends behind where it starts. The rules are
/// numbered as they call each other: the atom is rule 0, what follows the
/// first factor of a product rule 1, the product rule 2, what follows the
/// first term of a sum rule 3, and the sum rule 4.
proof fn lemma_rule_advances(words: Seq<Token>, left: Expr, pos: int, rule: int)
    requires
        0 <= pos <= words.len(),
        0 <= rule <= 4,
    ensures
        rule == 0 ==> ends_within(atom_at(words, pos), pos + 1, words.len() as int),
        rule == 1 ==> ends_within(product_after(words, left, pos), pos, words.len() as int),
        rule == 2 ==> ends_within(product_at(words, pos), pos + 1, words.len() as int),
        rule == 3 ==> ends_within(sum_after(words, left, pos), pos, words.len() as int),
        rule == 4 ==> ends_within(sum_at(words, pos), pos + 1, words.len() as int),
    decreases words.len() - pos, rule,
{
    if rule == 0 {
        if pos < words.len() {
            match words[pos] {
                Token::Minus => {
                    lemma_rule_advances(words, left, pos + 1, 0);
                },
                Token::Open => {
                    lemma_rule_advances(words, left, pos + 1, 4);
                },
                _ => {},
            }
        }
    } else if rule == 1 {
        if pos < words.len() && (words[pos] is Star || words[pos] is Slash) {
            lemma_rule_advances(words, left, pos + 1, 0);
            match atom_at(words, pos + 1) {
                Ok((right, next)) => {
                    let joined = if words[pos] is Star {
                        Expr::Product(Box::new(left), Box::new(right))
                    } else {
                        Expr::Quotient(Box::new(left), Box::new(right))
                    };
                    lemma_rule_advances(words, joined, next, 1);
                },
                Err(_) => {},
            }
        }
    } else if rule == 2 {
        lemma_rule_advances(words, left, pos, 0);
        match atom_at(words, pos) {
            Ok((first, next)) => {
                lemma_rule_advances(words, first, next, 1);
            },
            Err(_) => {},
        }
    } else if rule == 3 {
        if pos < words.len() && (words[pos] is Plus || words[pos] is Minus) {
            lemma_rule_advances(words, left, pos + 1, 2);
            match product_at(words, pos + 1) {
                Ok((right, next)) => {
                    let joined = if words[pos] is Plus {
                        Expr::Sum(Box::new(left), Box::new(right))
                    } else {
                        Expr::Difference(Box::new(left), Box::new(right))
                    };
                    lemma_rule_advances(words, joined, next, 3);
                },
                Err(_) => {},
            }
        }
    } else {
        lemma_rule_advances(words, left, pos, 2);
        match product_at(words, pos) {
            Ok((first, next)) => {
                lemma_rule_advances(words, first, next, 3);
            },
            Err(_) => {},
        }
    }
}

} // verus!
