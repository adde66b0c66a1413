use multi_agent::calc::{invalid_char_message, mismatch_message, scan_expression, to_postfix, tokenize_expression, CalcToken};

fn num(s: &str) -> CalcToken {
    CalcToken::Number(s.to_string())
}

fn postfix(expr: &str) -> Result<Vec<CalcToken>, String> {
    to_postfix(&tokenize_expression(expr).unwrap())
}

#[test]
fn calc_tokenize_strips_whitespace_and_splits() {
    let tokens = tokenize_expression(" 2 + 3.5*(4 - 1) / 10 ").unwrap();
    assert_eq!(
        tokens,
        vec![
            num("2"),
            CalcToken::Plus,
            num("3.5"),
            CalcToken::Multiply,
            CalcToken::LParen,
            num("4"),
            CalcToken::Minus,
            num("1"),
            CalcToken::RParen,
            CalcToken::Divide,
            num("10"),
        ]
    );
}

#[test]
fn calc_tokenize_joins_digits_across_whitespace() {
    assert_eq!(tokenize_expression("1 2").unwrap(), vec![num("12")]);
    assert_eq!(tokenize_expression("1..2").unwrap(), vec![num("1..2")]);
    assert_eq!(tokenize_expression("").unwrap(), Vec::<CalcToken>::new());
}

#[test]
fn calc_tokenize_rejects_other_characters() {
    assert_eq!(tokenize_expression("1 + x").unwrap_err(), "无效字符: 'x'");
    assert_eq!(tokenize_expression("2^3").unwrap_err(), "无效字符: '^'");
    assert_eq!(invalid_char_message('中'), "无效字符: '中'");
}

#[test]
fn calc_scan_stops_at_first_invalid_character() {
    let scan = scan_expression("1+2a3");
    assert_eq!(scan.tokens, vec![num("1"), CalcToken::Plus, num("2")]);
    assert_eq!(scan.invalid, Some('a'));
    let scan = scan_expression("7 * 8");
    assert_eq!(scan.tokens.len(), 3);
    assert_eq!(scan.invalid, None);
}

#[test]
fn calc_postfix_respects_precedence() {
    assert_eq!(
        postfix("2+3*4").unwrap(),
        vec![num("2"), num("3"), num("4"), CalcToken::Multiply, CalcToken::Plus]
    );
    assert_eq!(
        postfix("10/2+3").unwrap(),
        vec![num("10"), num("2"), CalcToken::Divide, num("3"), CalcToken::Plus]
    );
}

#[test]
fn calc_postfix_groups_left_and_by_brackets() {
    assert_eq!(
        postfix("(2+3)*4").unwrap(),
        vec![num("2"), num("3"), CalcToken::Plus, num("4"), CalcToken::Multiply]
    );
    assert_eq!(
        postfix("8-3-1").unwrap(),
        vec![num("8"), num("3"), CalcToken::Minus, num("1"), CalcToken::Minus]
    );
    assert_eq!(
        postfix("8-(3-1)").unwrap(),
        vec![num("8"), num("3"), num("1"), CalcToken::Minus, CalcToken::Minus]
    );
}

#[test]
fn calc_postfix_keeps_a_leading_minus_as_an_operator() {
    assert_eq!(postfix("-3").unwrap(), vec![num("3"), CalcToken::Minus]);
}

#[test]
fn calc_postfix_rejects_unmatched_brackets() {
    assert_eq!(postfix("(1+2").unwrap_err(), "括号不匹配");
    assert_eq!(postfix("1+2)").unwrap_err(), "括号不匹配");
    assert_eq!(postfix(")(").unwrap_err(), "括号不匹配");
    assert_eq!(mismatch_message(), "括号不匹配");
    assert!(postfix("((1))").is_ok());
}
