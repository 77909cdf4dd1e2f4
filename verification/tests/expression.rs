use coronabot::expr::{parse_expression, EvalError, Expr};
use coronabot::lexer::{tokenize, ExprError, Token};
use coronabot::ratio::Ratio;
use coronabot::record::DailyRecord;

fn counts(positive: u32, negative: u32, total: u32, dead: u32, hospitalized: u32, pending: u32) -> DailyRecord {
    DailyRecord {
        region: None,
        date: 20200301,
        positive: Some(positive),
        negative: Some(negative),
        pending: Some(pending),
        hospitalized: Some(hospitalized),
        deaths: Some(dead),
        total_tests: Some(total),
    }
}

fn value_of(text: &str, day: &DailyRecord) -> Result<(i128, i128), EvalError> {
    let expr = parse_expression(text).unwrap();
    expr.eval(day).map(|r| (r.num, r.den))
}

fn error_of(text: &str) -> ExprError {
    match parse_expression(text) {
        Ok(_) => panic!("{:?} was read as an expression", text),
        Err(e) => e,
    }
}

#[test]
fn positive_over_total_of_10_and_50_is_a_fifth() {
    let day = counts(10, 0, 50, 0, 0, 0);
    let expr = parse_expression("positive/total").unwrap();
    let value = expr.eval(&day).unwrap();
    assert_eq!((value.num, value.den), (1, 5));
    assert_eq!(value.num as f64 / value.den as f64, 0.2);
}

#[test]
fn every_name_stands_for_its_count() {
    let day = counts(1, 2, 3, 4, 5, 6);
    assert_eq!(value_of("positive", &day), Ok((1, 1)));
    assert_eq!(value_of("negative", &day), Ok((2, 1)));
    assert_eq!(value_of("total", &day), Ok((3, 1)));
    assert_eq!(value_of("dead", &day), Ok((4, 1)));
    assert_eq!(value_of("hospitalized", &day), Ok((5, 1)));
    assert_eq!(value_of("pending", &day), Ok((6, 1)));
}

#[test]
fn a_count_that_was_not_reported_stands_for_zero() {
    let mut day = counts(1, 2, 3, 4, 5, 6);
    day.pending = None;
    assert_eq!(value_of("pending + 1", &day), Ok((1, 1)));
}

#[test]
fn a_name_is_read_whole() {
    assert_eq!(error_of("totals"), ExprError::UnknownName);
    assert_eq!(error_of("subtotal"), ExprError::UnknownName);
    assert_eq!(error_of("Positive"), ExprError::UnknownName);
    assert_eq!(error_of("deaths"), ExprError::UnknownName);
}

#[test]
fn products_bind_tighter_than_sums() {
    let day = counts(0, 0, 0, 0, 0, 0);
    assert_eq!(value_of("1 + 2 * 3", &day), Ok((7, 1)));
    assert_eq!(value_of("(1 + 2) * 3", &day), Ok((9, 1)));
    assert_eq!(value_of("2 * 3 + 4 * 5", &day), Ok((26, 1)));
}

#[test]
fn operators_of_one_level_group_from_the_left() {
    let day = counts(0, 0, 0, 0, 0, 0);
    assert_eq!(value_of("10 - 4 - 3", &day), Ok((3, 1)));
    assert_eq!(value_of("10 - (4 - 3)", &day), Ok((9, 1)));
    assert_eq!(value_of("100 / 10 / 5", &day), Ok((2, 1)));
    assert_eq!(value_of("100 / (10 / 5)", &day), Ok((50, 1)));
}

#[test]
fn a_minus_sign_negates_an_atom() {
    let day = counts(7, 0, 0, 0, 0, 0);
    assert_eq!(value_of("-positive", &day), Ok((-7, 1)));
    assert_eq!(value_of("--positive", &day), Ok((7, 1)));
    assert_eq!(value_of("2 * -3", &day), Ok((-6, 1)));
    assert_eq!(value_of("1 - -1", &day), Ok((2, 1)));
    assert_eq!(value_of("-(1 + 2)", &day), Ok((-3, 1)));
    assert_eq!(value_of("6 / -3", &day), Ok((-2, 1)));
}

#[test]
fn a_number_with_a_point_is_a_fraction_of_a_power_of_ten() {
    let day = counts(0, 0, 0, 0, 0, 0);
    assert_eq!(value_of("12.50", &day), Ok((1250, 100)));
    assert_eq!(value_of("12.50 * 1", &day), Ok((25, 2)));
    assert_eq!(value_of("0.5 + 0.25", &day), Ok((3, 4)));
    assert_eq!(value_of("007", &day), Ok((7, 1)));
    assert_eq!(value_of("123456789012345678", &day), Ok((123456789012345678, 1)));
    assert_eq!(value_of("0.00000000000000001", &day), Ok((1, 100_000_000_000_000_000)));
}

#[test]
fn spaces_are_passed_over() {
    let day = counts(10, 0, 50, 0, 0, 0);
    assert_eq!(value_of("  positive \t/\n total  ", &day), Ok((1, 5)));
    assert_eq!(value_of("positive\u{a0}/\u{2003}total\u{3000}", &day), Ok((1, 5)));
    assert_eq!(value_of("( positive+total )*2", &day), Ok((120, 1)));
}

#[test]
fn a_malformed_number_is_refused() {
    assert_eq!(error_of("1."), ExprError::MalformedNumber);
    assert_eq!(error_of("1.+2"), ExprError::MalformedNumber);
    assert_eq!(error_of("1234567890123456789"), ExprError::MalformedNumber);
    assert_eq!(error_of("1.000000000000000000"), ExprError::MalformedNumber);
}

#[test]
fn a_character_of_no_expression_is_refused() {
    assert_eq!(error_of("positive % total"), ExprError::UnexpectedCharacter);
    assert_eq!(error_of(".5"), ExprError::UnexpectedCharacter);
    assert_eq!(error_of("positive ^ 2"), ExprError::UnexpectedCharacter);
    assert_eq!(error_of("posit\u{ef}ve"), ExprError::UnknownName);
    assert_eq!(error_of("\u{e9}"), ExprError::UnexpectedCharacter);
}

#[test]
fn words_out_of_order_are_refused() {
    assert_eq!(error_of(""), ExprError::Syntax);
    assert_eq!(error_of("   "), ExprError::Syntax);
    assert_eq!(error_of("positive total"), ExprError::Syntax);
    assert_eq!(error_of("positive +"), ExprError::Syntax);
    assert_eq!(error_of("* positive"), ExprError::Syntax);
    assert_eq!(error_of("(positive"), ExprError::Syntax);
    assert_eq!(error_of("positive)"), ExprError::Syntax);
    assert_eq!(error_of("()"), ExprError::Syntax);
    assert_eq!(error_of("1 2"), ExprError::Syntax);
}

#[test]
fn the_first_error_in_the_text_is_given() {
    assert_eq!(error_of("bogus % 1."), ExprError::UnknownName);
    assert_eq!(error_of("% bogus"), ExprError::UnexpectedCharacter);
    assert_eq!(error_of("+ + bogus"), ExprError::UnknownName);
}

#[test]
fn a_text_too_long_is_refused() {
    let long = "1+".repeat(512) + "1";
    assert_eq!(long.chars().count(), 1025);
    assert_eq!(error_of(&long), ExprError::TooLong);
    let fits = "1+".repeat(511) + "11";
    assert_eq!(fits.chars().count(), 1024);
    let day = counts(0, 0, 0, 0, 0, 0);
    assert_eq!(value_of(&fits, &day), Ok((522, 1)));
    let nested = "(".repeat(511) + "1" + &")".repeat(511);
    assert_eq!(value_of(&nested, &day), Ok((1, 1)));
    let negated = "-".repeat(1023) + "1";
    assert_eq!(value_of(&negated, &day), Ok((-1, 1)));
}

#[test]
fn a_division_by_zero_is_an_error_of_the_evaluation() {
    let day = counts(10, 0, 0, 0, 0, 0);
    assert_eq!(value_of("positive/total", &day), Err(EvalError::DivisionByZero));
    assert_eq!(value_of("1/(2-2)", &day), Err(EvalError::DivisionByZero));
    assert_eq!(
        value_of("1/0 + 100000000000000000*100000000000000000*100000000000000000", &day),
        Err(EvalError::DivisionByZero)
    );
}

#[test]
fn a_step_that_does_not_fit_is_an_error_of_the_evaluation() {
    let day = counts(0, 0, 0, 0, 0, 0);
    assert_eq!(
        value_of("99999999999*99999999999", &day),
        Ok((9_999_999_999_800_000_000_001, 1))
    );
    assert_eq!(
        value_of("100000000000000000*100000000000000000*100000000000000000", &day),
        Err(EvalError::Overflow)
    );
    assert_eq!(
        value_of("0.00000000000000001 * 0.00000000000000001 * 0.00000000000000001", &day),
        Err(EvalError::Overflow)
    );
    // A hundred thousand to the seventh is below 2^127, to the eighth above.
    assert_eq!(
        value_of("100000*100000*100000*100000*100000*100000*100000", &day),
        Ok((100_000i128.pow(7), 1))
    );
    assert_eq!(
        value_of("100000*100000*100000*100000*100000*100000*100000*100000", &day),
        Err(EvalError::Overflow)
    );
}

#[test]
fn a_sum_of_four_quotients_of_large_counts_has_its_value() {
    let day = counts(99_991, 99_989, 99_971, 1, 99_961, 0);
    let sum = value_of("dead/positive + dead/negative + dead/total + dead/hospitalized", &day);
    let den: i128 = 99_991 * 99_989 * 99_971 * 99_961;
    assert_eq!(sum.map(|v| v.1), Ok(den));
    let shared = counts(30_000, 40_000, 100_003, 5, 7, 11);
    assert_eq!(
        value_of("positive/total + negative/total + dead/total + pending/total", &shared),
        Ok((30_000 + 40_000 + 5 + 11, 100_003))
    );
}

#[test]
fn tokenize_gives_the_words_in_order() {
    let words = tokenize("(positive + 2.5) / -total").unwrap();
    assert_eq!(words.len(), 8);
    assert!(matches!(words[0], Token::Open));
    assert!(matches!(words[1], Token::Name(coronabot::record::Category::Positive)));
    assert!(matches!(words[2], Token::Plus));
    assert!(matches!(words[3], Token::Number(Ratio { num: 25, den: 10 })));
    assert!(matches!(words[4], Token::Close));
    assert!(matches!(words[5], Token::Slash));
    assert!(matches!(words[6], Token::Minus));
    assert!(matches!(words[7], Token::Name(coronabot::record::Category::TotalTests)));
    assert_eq!(tokenize("").unwrap().len(), 0);
    assert_eq!(tokenize("* *").unwrap().len(), 2);
}

#[test]
fn parse_builds_the_tree_of_the_grammar() {
    let expr = parse_expression("positive - dead * 2").unwrap();
    match expr {
        Expr::Difference(left, right) => {
            assert!(matches!(*left, Expr::Variable(coronabot::record::Category::Positive)));
            match *right {
                Expr::Product(a, b) => {
                    assert!(matches!(*a, Expr::Variable(coronabot::record::Category::Deaths)));
                    assert!(matches!(*b, Expr::Number(Ratio { num: 2, den: 1 })));
                }
                other => panic!("not a product: {:?}", other),
            }
        }
        other => panic!("not a difference: {:?}", other),
    }
}
