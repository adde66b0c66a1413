//! The calculator tool's expression grammar: scanning an expression into
//! tokens, and putting the tokens in evaluation order with the shunting-yard
//! algorithm. A number keeps its text; turning that text into a value and
//! evaluating the ordered tokens is floating-point work done by the caller.
use vstd::prelude::*;
use crate::text::{is_ws, is_whitespace_char, chars_of, push_str};

verus! {

broadcast use vstd::std_specs::vec::group_vec_axioms;

/// One token of an arithmetic expression.
#[derive(Clone, Debug, PartialEq, Eq)]
pub enum CalcToken {
    Number(String),
    Plus,
    Minus,
    Multiply,
    Divide,
    LParen,
    RParen,
}

/// The mathematical form of a token: a number is the sequence of its characters.
pub enum CalcTerm {
    Number(Seq<char>),
    Plus,
    Minus,
    Multiply,
    Divide,
    LParen,
    RParen,
}

impl CalcToken {
    pub open spec fn term(self) -> CalcTerm {
        match self {
            CalcToken::Number(s) => CalcTerm::Number(s@),
            CalcToken::Plus => CalcTerm::Plus,
            CalcToken::Minus => CalcTerm::Minus,
            CalcToken::Multiply => CalcTerm::Multiply,
            CalcToken::Divide => CalcTerm::Divide,
            CalcToken::LParen => CalcTerm::LParen,
            CalcToken::RParen => CalcTerm::RParen,
        }
    }
}

/// The terms of a sequence of tokens, in order.
pub open spec fn terms(ts: Seq<CalcToken>) -> Seq<CalcTerm> {
    Seq::new(ts.len(), |i: int| ts[i].term())
}

proof fn lemma_terms_push(v: Seq<CalcToken>, x: CalcToken)
    ensures
        terms(v.push(x)) == terms(v).push(x.term()),
{
    assert(terms(v.push(x)) =~= terms(v).push(x.term()));
}

proof fn lemma_terms_drop_last(v: Seq<CalcToken>)
    requires
        v.len() > 0,
    ensures
        terms(v.drop_last()) == terms(v).drop_last(),
        terms(v).last() == v.last().term(),
{
    assert(terms(v.drop_last()) =~= terms(v).drop_last());
}

// ------------------------------------------------------------------
// Scanning

/// `s` without its whitespace characters.
pub open spec fn strip_ws(s: Seq<char>) -> Seq<char>
    decreases s.len(),
{
    if s.len() == 0 {
        s
    } else {
        let r = strip_ws(s.drop_last());
        if is_ws(s.last()) {
            r
        } else {
            r.push(s.last())
        }
    }
}

/// A character that belongs to a number: a decimal digit or the point.
pub open spec fn is_number_char(c: char) -> bool {
    ('0' <= c && c <= '9') || c == '.'
}

/// The operator or bracket that `c` stands for, if any.
pub open spec fn operator_term(c: char) -> Option<CalcTerm> {
    if c == '+' {
        Some(CalcTerm::Plus)
    } else if c == '-' {
        Some(CalcTerm::Minus)
    } else if c == '*' {
        Some(CalcTerm::Multiply)
    } else if c == '/' {
        Some(CalcTerm::Divide)
    } else if c == '(' {
        Some(CalcTerm::LParen)
    } else if c == ')' {
        Some(CalcTerm::RParen)
    } else {
        None
    }
}

/// A character an expression may hold once its whitespace is removed.
pub open spec fn is_calc_char(c: char) -> bool {
    is_number_char(c) || operator_term(c) is Some
}

/// Where the run of number characters that starts at `i` ends.
pub open spec fn run_end(s: Seq<char>, i: int) -> int
    decreases s.len() - i,
{
    if 0 <= i < s.len() && is_number_char(s[i]) {
        run_end(s, i + 1)
    } else {
        i
    }
}

pub proof fn lemma_run_end(s: Seq<char>, i: int)
    requires
        0 <= i <= s.len(),
    ensures
        i <= run_end(s, i) <= s.len(),
        i < s.len() && is_number_char(s[i]) ==> i < run_end(s, i),
        forall|j: int| i <= j < run_end(s, i) ==> is_number_char(#[trigger] s[j]),
    decreases s.len() - i,
{
    if i < s.len() && is_number_char(s[i]) {
        lemma_run_end(s, i + 1);
    }
}

/// Scanning `s` from position `i`: each run of number characters is one
/// number, each operator or bracket one token. Scanning stops at the first
/// character that is neither, which is returned beside the tokens read.
pub open spec fn scan_from(s: Seq<char>, i: int) -> (Seq<CalcTerm>, Option<char>)
    decreases s.len() - i,
{
    if i < 0 || i >= s.len() {
        (Seq::empty(), None)
    } else if is_number_char(s[i]) {
        let e = run_end(s, i);
        proof {
            lemma_run_end(s, i);
        }
        let rest = scan_from(s, e);
        (seq![CalcTerm::Number(s.subrange(i, e))] + rest.0, rest.1)
    } else {
        match operator_term(s[i]) {
            Some(t) => {
                let rest = scan_from(s, i + 1);
                (seq![t] + rest.0, rest.1)
            },
            None => (Seq::empty(), Some(s[i])),
        }
    }
}

/// The scan of a whole (whitespace-free) expression.
pub open spec fn scan_terms(s: Seq<char>) -> (Seq<CalcTerm>, Option<char>) {
    scan_from(s, 0)
}

/// The error text for a character that no token starts with.
pub open spec fn invalid_char_text(c: char) -> Seq<char> {
    "无效字符: '"@ + seq![c] + "'"@
}

/// The scan stops at a character exactly when some character from `i` on
/// is not one an expression may hold; that character is such a one.
proof fn lemma_scan_stop(s: Seq<char>, i: int)
    requires
        0 <= i <= s.len(),
    ensures
        scan_from(s, i).1 is None <==> forall|k: int| i <= k < s.len() ==> is_calc_char(#[trigger] s[k]),
        scan_from(s, i).1 matches Some(c) ==> !is_calc_char(c),
    decreases s.len() - i,
{
    if i < s.len() {
        if is_number_char(s[i]) {
            lemma_run_end(s, i);
            let e = run_end(s, i);
            lemma_scan_stop(s, e);
            assert forall|k: int| i <= k < e implies is_calc_char(#[trigger] s[k]) by {
                assert(is_number_char(s[k]));
            }
        } else if operator_term(s[i]) is Some {
            lemma_scan_stop(s, i + 1);
        } else {
            assert(!is_calc_char(s[i]));
        }
    }
}

/// Whether `c` is a decimal digit or the point.
pub fn number_char(c: char) -> (b: bool)
    ensures
        b == is_number_char(c),
{
    ('0' <= c && c <= '9') || c == '.'
}

/// The operator or bracket token that `c` stands for, if any.
pub fn operator_token(c: char) -> (r: Option<CalcToken>)
    ensures
        r matches Some(t) ==> operator_term(c) == Some(t.term()),
        r is None <==> operator_term(c) is None,
{
    if c == '+' {
        Some(CalcToken::Plus)
    } else if c == '-' {
        Some(CalcToken::Minus)
    } else if c == '*' {
        Some(CalcToken::Multiply)
    } else if c == '/' {
        Some(CalcToken::Divide)
    } else if c == '(' {
        Some(CalcToken::LParen)
    } else if c == ')' {
        Some(CalcToken::RParen)
    } else {
        None
    }
}

/// The characters of `expr` without its whitespace.
pub fn strip_whitespace(expr: &str) -> (r: Vec<char>)
    ensures
        r@ == strip_ws(expr@),
{
    let cs = chars_of(expr);
    let mut r: Vec<char> = Vec::new();
    let mut i: usize = 0;
    while i < cs.len()
        invariant
            i <= cs@.len(),
            cs@ == expr@,
            r@ == strip_ws(cs@.take(i as int)),
        decreases cs.len() - i,
    {
        let c = cs[i];
        assert(cs@.take(i + 1).drop_last() =~= cs@.take(i as int));
        if !is_whitespace_char(c) {
            r.push(c);
        }
        i += 1;
    }
    assert(cs@.take(cs@.len() as int) =~= cs@);
    r
}

/// The tokens of `expr` read up to the first character that is no part of
/// an expression, and that character, if there is one.
pub struct CalcScan {
    pub tokens: Vec<CalcToken>,
    pub invalid: Option<char>,
}

/// Scans `expr` with its whitespace removed: runs of digits and points are
/// numbers, `+ - * / ( )` are operators and brackets, and scanning stops at
/// the first other character.
pub fn scan_expression(expr: &str) -> (r: CalcScan)
    ensures
        terms(r.tokens@) == scan_terms(strip_ws(expr@)).0,
        r.invalid == scan_terms(strip_ws(expr@)).1,
{
    let s = strip_whitespace(expr);
    let mut tokens: Vec<CalcToken> = Vec::new();
    let mut i: usize = 0;
    while i < s.len()
        invariant
            i <= s@.len(),
            s@ == strip_ws(expr@),
            scan_from(s@, 0).0 == terms(tokens@) + scan_from(s@, i as int).0,
            scan_from(s@, 0).1 == scan_from(s@, i as int).1,
        decreases s.len() - i,
    {
        let c = s[i];
        if number_char(c) {
            let mut j: usize = i;
            let mut num = String::new();
            while j < s.len() && number_char(s[j])
                invariant
                    i <= j <= s@.len(),
                    run_end(s@, i as int) == run_end(s@, j as int),
                    num@ == s@.subrange(i as int, j as int),
                decreases s.len() - j,
            {
                num.push(s[j]);
                j += 1;
                assert(num@ =~= s@.subrange(i as int, j as int));
            }
            proof {
                lemma_run_end(s@, i as int);
                lemma_terms_push(tokens@, CalcToken::Number(num));
            }
            let ghost before = tokens@;
            tokens.push(CalcToken::Number(num));
            assert(terms(tokens@) + scan_from(s@, j as int).0 =~= terms(before) + scan_from(
                s@,
                i as int,
            ).0);
            i = j;
        } else {
            match operator_token(c) {
                Some(t) => {
                    proof {
                        lemma_terms_push(tokens@, t);
                    }
                    let ghost before = tokens@;
                    tokens.push(t);
                    assert(terms(tokens@) + scan_from(s@, i + 1).0 =~= terms(before) + scan_from(
                        s@,
                        i as int,
                    ).0);
                    i += 1;
                },
                None => {
                    assert(scan_from(s@, i as int).0 =~= Seq::<CalcTerm>::empty());
                    assert(terms(tokens@) + Seq::<CalcTerm>::empty() =~= terms(tokens@));
                    return CalcScan { tokens, invalid: Some(c) };
                },
            }
        }
    }
    assert(terms(tokens@) + Seq::<CalcTerm>::empty() =~= terms(tokens@));
    CalcScan { tokens, invalid: None }
}

/// The error text for the character `c`, which no token starts with.
pub fn invalid_char_message(c: char) -> (m: String)
    ensures
        m@ == invalid_char_text(c),
{
    let mut m = String::new();
    push_str(&mut m, "无效字符: '");
    m.push(c);
    push_str(&mut m, "'");
    assert(m@ =~= invalid_char_text(c));
    m
}

/// The tokens of `expr`, its whitespace removed; an error naming the first
/// character that is neither a digit, the point, an operator nor a bracket.
pub fn tokenize_expression(expr: &str) -> (r: Result<Vec<CalcToken>, String>)
    ensures
        r is Err <==> exists|k: int|
            0 <= k < strip_ws(expr@).len() && !is_calc_char(#[trigger] strip_ws(expr@)[k]),
        r matches Ok(t) ==> terms(t@) == scan_terms(strip_ws(expr@)).0,
        r matches Err(m) ==> exists|c: char|
            scan_terms(strip_ws(expr@)).1 == Some(c) && !is_calc_char(c) && m@ == invalid_char_text(c),
{
    let scan = scan_expression(expr);
    proof {
        lemma_scan_stop(strip_ws(expr@), 0);
    }
    match scan.invalid {
        None => Ok(scan.tokens),
        Some(c) => Err(invalid_char_message(c)),
    }
}

// ------------------------------------------------------------------
// Evaluation order

/// How tightly an operator binds: `*` and `/` above `+` and `-`.
pub open spec fn precedence(t: CalcTerm) -> nat {
    match t {
        CalcTerm::Plus | CalcTerm::Minus => 1,
        CalcTerm::Multiply | CalcTerm::Divide => 2,
        _ => 0,
    }
}

/// Moves the top of `stack` to `out` as long as it is no opening bracket and
/// binds at least as tightly as `p`.
pub open spec fn pop_while(out: Seq<CalcTerm>, stack: Seq<CalcTerm>, p: nat) -> (Seq<CalcTerm>, Seq<CalcTerm>)
    decreases stack.len(),
{
    if stack.len() > 0 && !(stack.last() is LParen) && precedence(stack.last()) >= p {
        pop_while(out.push(stack.last()), stack.drop_last(), p)
    } else {
        (out, stack)
    }
}

/// Moves the whole stack to `out`, top first; an opening bracket left on it
/// has no partner.
pub open spec fn drain(out: Seq<CalcTerm>, stack: Seq<CalcTerm>) -> Option<Seq<CalcTerm>>
    decreases stack.len(),
{
    if stack.len() == 0 {
        Some(out)
    } else if stack.last() is LParen {
        None
    } else {
        drain(out.push(stack.last()), stack.drop_last())
    }
}

/// The shunting-yard algorithm from position `i` of `ts`, with output `out`
/// and operator stack `stack` so far. `None` when a bracket has no partner.
pub open spec fn shunt(ts: Seq<CalcTerm>, i: int, out: Seq<CalcTerm>, stack: Seq<CalcTerm>) -> Option<
    Seq<CalcTerm>,
>
    decreases ts.len() - i,
{
    if i >= ts.len() {
        drain(out, stack)
    } else {
        let t = ts[i];
        match t {
            CalcTerm::Number(_) => shunt(ts, i + 1, out.push(t), stack),
            CalcTerm::LParen => shunt(ts, i + 1, out, stack.push(t)),
            CalcTerm::RParen => {
                let (o, s) = pop_while(out, stack, 0);
                if s.len() > 0 && s.last() is LParen {
                    shunt(ts, i + 1, o, s.drop_last())
                } else {
                    None
                }
            },
            _ => {
                let (o, s) = pop_while(out, stack, precedence(t));
                shunt(ts, i + 1, o, s.push(t))
            },
        }
    }
}

/// The tokens of `ts` in postfix (evaluation) order, or `None` when the
/// brackets do not match.
pub open spec fn postfix_of(ts: Seq<CalcTerm>) -> Option<Seq<CalcTerm>> {
    shunt(ts, 0, Seq::empty(), Seq::empty())
}

/// Reading `ts` from position `i` with `open` brackets open, every closing
/// bracket finds one open, and none is open at the end.
pub open spec fn balanced_from(ts: Seq<CalcTerm>, i: int, open: int) -> bool
    decreases ts.len() - i,
{
    if i >= ts.len() {
        open == 0
    } else {
        match ts[i] {
            CalcTerm::LParen => balanced_from(ts, i + 1, open + 1),
            CalcTerm::RParen => open > 0 && balanced_from(ts, i + 1, open - 1),
            _ => balanced_from(ts, i + 1, open),
        }
    }
}

/// The brackets of `ts` match.
pub open spec fn brackets_balanced(ts: Seq<CalcTerm>) -> bool {
    balanced_from(ts, 0, 0)
}

/// The number of opening brackets in `s`.
pub open spec fn open_count(s: Seq<CalcTerm>) -> nat
    decreases s.len(),
{
    if s.len() == 0 {
        0
    } else {
        open_count(s.drop_last()) + if s.last() is LParen {
            1nat
        } else {
            0nat
        }
    }
}

/// The error text for brackets that do not match.
pub open spec fn mismatch_text() -> Seq<char> {
    "括号不匹配"@
}

proof fn lemma_pop_while(out: Seq<CalcTerm>, stack: Seq<CalcTerm>, p: nat)
    ensures
        open_count(pop_while(out, stack, p).1) == open_count(stack),
        p == 0 ==> ((pop_while(out, stack, p).1.len() > 0 && pop_while(out, stack, p).1.last() is LParen)
            <==> open_count(stack) > 0),
    decreases stack.len(),
{
    if stack.len() > 0 && !(stack.last() is LParen) && precedence(stack.last()) >= p {
        lemma_pop_while(out.push(stack.last()), stack.drop_last(), p);
    } else if stack.len() > 0 && p == 0 {
        assert(stack.last() is LParen);
    }
}

proof fn lemma_drain(out: Seq<CalcTerm>, stack: Seq<CalcTerm>)
    ensures
        drain(out, stack) is Some <==> open_count(stack) == 0,
    decreases stack.len(),
{
    if stack.len() > 0 && !(stack.last() is LParen) {
        lemma_drain(out.push(stack.last()), stack.drop_last());
    }
}

proof fn lemma_shunt_balanced(ts: Seq<CalcTerm>, i: int, out: Seq<CalcTerm>, stack: Seq<CalcTerm>)
    requires
        0 <= i <= ts.len(),
    ensures
        shunt(ts, i, out, stack) is Some <==> balanced_from(ts, i, open_count(stack) as int),
    decreases ts.len() - i,
{
    if i >= ts.len() {
        lemma_drain(out, stack);
    } else {
        let t = ts[i];
        match t {
            CalcTerm::Number(_) => {
                lemma_shunt_balanced(ts, i + 1, out.push(t), stack);
            },
            CalcTerm::LParen => {
                assert(stack.push(t).drop_last() =~= stack);
                lemma_shunt_balanced(ts, i + 1, out, stack.push(t));
            },
            CalcTerm::RParen => {
                lemma_pop_while(out, stack, 0);
                let (o, s) = pop_while(out, stack, 0);
                if s.len() > 0 && s.last() is LParen {
                    lemma_shunt_balanced(ts, i + 1, o, s.drop_last());
                }
            },
            _ => {
                lemma_pop_while(out, stack, precedence(t));
                let (o, s) = pop_while(out, stack, precedence(t));
                assert(s.push(t).drop_last() =~= s);
                lemma_shunt_balanced(ts, i + 1, o, s.push(t));
            },
        }
    }
}

/// The shunting yard succeeds exactly when the brackets match.
pub proof fn law_postfix_iff_balanced(ts: Seq<CalcTerm>)
    ensures
        postfix_of(ts) is Some <==> brackets_balanced(ts),
{
    lemma_shunt_balanced(ts, 0, Seq::empty(), Seq::empty());
}

/// An operator of the additive level: `+` or `-`.
pub open spec fn is_additive(t: CalcTerm) -> bool {
    t is Plus || t is Minus
}

/// An operator of the multiplicative level: `*` or `/`.
pub open spec fn is_multiplicative(t: CalcTerm) -> bool {
    t is Multiply || t is Divide
}

/// `a op1 b op2 c` for any three numbers: when `op2` is `*` or `/` and `op1`
/// is `+` or `-`, `b op2 c` is evaluated first (`a b c op2 op1`); otherwise
/// the two operators apply from left to right (`a b op1 c op2`).
pub proof fn law_postfix_binds_multiplication_tighter(
    x: Seq<char>,
    y: Seq<char>,
    z: Seq<char>,
    op1: CalcTerm,
    op2: CalcTerm,
)
    requires
        is_additive(op1) || is_multiplicative(op1),
        is_additive(op2) || is_multiplicative(op2),
    ensures
        is_additive(op1) && is_multiplicative(op2) ==> postfix_of(
            seq![CalcTerm::Number(x), op1, CalcTerm::Number(y), op2, CalcTerm::Number(z)],
        ) == Some(seq![CalcTerm::Number(x), CalcTerm::Number(y), CalcTerm::Number(z), op2, op1]),
        !(is_additive(op1) && is_multiplicative(op2)) ==> postfix_of(
            seq![CalcTerm::Number(x), op1, CalcTerm::Number(y), op2, CalcTerm::Number(z)],
        ) == Some(seq![CalcTerm::Number(x), CalcTerm::Number(y), op1, CalcTerm::Number(z), op2]),
{
    let a = CalcTerm::Number(x);
    let b = CalcTerm::Number(y);
    let c = CalcTerm::Number(z);
    let ts = seq![a, op1, b, op2, c];
    let e = Seq::<CalcTerm>::empty();
    assert(ts[0] == a && ts[1] == op1 && ts[2] == b && ts[3] == op2 && ts[4] == c);
    assert(e.push(a) =~= seq![a]);
    assert(shunt(ts, 0, e, e) == shunt(ts, 1, seq![a], e));
    assert(pop_while(seq![a], e, precedence(op1)) == (seq![a], e));
    assert(e.push(op1) =~= seq![op1]);
    assert(shunt(ts, 1, seq![a], e) == shunt(ts, 2, seq![a], seq![op1]));
    assert(seq![a].push(b) =~= seq![a, b]);
    assert(shunt(ts, 2, seq![a], seq![op1]) == shunt(ts, 3, seq![a, b], seq![op1]));
    if is_additive(op1) && is_multiplicative(op2) {
        assert(pop_while(seq![a, b], seq![op1], precedence(op2)) == (seq![a, b], seq![op1]));
        assert(seq![op1].push(op2) =~= seq![op1, op2]);
        assert(shunt(ts, 3, seq![a, b], seq![op1]) == shunt(ts, 4, seq![a, b], seq![op1, op2]));
        assert(seq![a, b].push(c) =~= seq![a, b, c]);
        assert(shunt(ts, 4, seq![a, b], seq![op1, op2]) == shunt(ts, 5, seq![a, b, c], seq![op1, op2]));
        assert(seq![op1, op2].drop_last() =~= seq![op1]);
        assert(seq![op1].drop_last() =~= e);
        assert(seq![a, b, c].push(op2) =~= seq![a, b, c, op2]);
        assert(seq![a, b, c, op2].push(op1) =~= seq![a, b, c, op2, op1]);
        assert(drain(seq![a, b, c, op2], seq![op1]) == drain(seq![a, b, c, op2, op1], e));
        assert(drain(seq![a, b, c], seq![op1, op2]) == drain(seq![a, b, c, op2], seq![op1]));
    } else {
        assert(seq![op1].drop_last() =~= e);
        assert(seq![a, b].push(op1) =~= seq![a, b, op1]);
        assert(pop_while(seq![a, b, op1], e, precedence(op2)) == (seq![a, b, op1], e));
        assert(pop_while(seq![a, b], seq![op1], precedence(op2)) == (seq![a, b, op1], e));
        assert(e.push(op2) =~= seq![op2]);
        assert(shunt(ts, 3, seq![a, b], seq![op1]) == shunt(ts, 4, seq![a, b, op1], seq![op2]));
        assert(seq![a, b, op1].push(c) =~= seq![a, b, op1, c]);
        assert(shunt(ts, 4, seq![a, b, op1], seq![op2]) == shunt(ts, 5, seq![a, b, op1, c], seq![op2]));
        assert(seq![op2].drop_last() =~= e);
        assert(seq![a, b, op1, c].push(op2) =~= seq![a, b, op1, c, op2]);
        assert(drain(seq![a, b, op1, c], seq![op2]) == drain(seq![a, b, op1, c, op2], e));
    }
}

/// Brackets group: `(a op1 b) op2 c` evaluates `a op1 b` first and
/// `a op1 (b op2 c)` evaluates `b op2 c` first, whatever the operators.
pub proof fn law_postfix_follows_brackets(x: Seq<char>, y: Seq<char>, z: Seq<char>, op1: CalcTerm, op2: CalcTerm)
    requires
        is_additive(op1) || is_multiplicative(op1),
        is_additive(op2) || is_multiplicative(op2),
    ensures
        postfix_of(
            seq![
                CalcTerm::LParen,
                CalcTerm::Number(x),
                op1,
                CalcTerm::Number(y),
                CalcTerm::RParen,
                op2,
                CalcTerm::Number(z),
            ],
        ) == Some(seq![CalcTerm::Number(x), CalcTerm::Number(y), op1, CalcTerm::Number(z), op2]),
        postfix_of(
            seq![
                CalcTerm::Number(x),
                op1,
                CalcTerm::LParen,
                CalcTerm::Number(y),
                op2,
                CalcTerm::Number(z),
                CalcTerm::RParen,
            ],
        ) == Some(seq![CalcTerm::Number(x), CalcTerm::Number(y), CalcTerm::Number(z), op2, op1]),
{
    reveal_with_fuel(shunt, 9);
    reveal_with_fuel(pop_while, 4);
    reveal_with_fuel(drain, 4);
    let a = CalcTerm::Number(x);
    let b = CalcTerm::Number(y);
    let c = CalcTerm::Number(z);
    let l = CalcTerm::LParen;
    let r = CalcTerm::RParen;
    let e = Seq::<CalcTerm>::empty();
    let t1 = seq![l, a, op1, b, r, op2, c];
    assert(t1[0] == l && t1[1] == a && t1[2] == op1 && t1[3] == b && t1[4] == r && t1[5] == op2 && t1[6] == c);
    assert(e.push(l) =~= seq![l]);
    assert(e.push(a) =~= seq![a]);
    assert(seq![l].push(op1) =~= seq![l, op1]);
    assert(seq![a].push(b) =~= seq![a, b]);
    assert(seq![l, op1].drop_last() =~= seq![l]);
    assert(seq![a, b].push(op1) =~= seq![a, b, op1]);
    assert(seq![l].drop_last() =~= e);
    assert(e.push(op2) =~= seq![op2]);
    assert(seq![a, b, op1].push(c) =~= seq![a, b, op1, c]);
    assert(seq![op2].drop_last() =~= e);
    assert(seq![a, b, op1, c].push(op2) =~= seq![a, b, op1, c, op2]);
    let t2 = seq![a, op1, l, b, op2, c, r];
    assert(t2[0] == a && t2[1] == op1 && t2[2] == l && t2[3] == b && t2[4] == op2 && t2[5] == c && t2[6] == r);
    assert(e.push(op1) =~= seq![op1]);
    assert(seq![op1].push(l) =~= seq![op1, l]);
    assert(seq![op1, l].push(op2) =~= seq![op1, l, op2]);
    assert(seq![a, b].push(c) =~= seq![a, b, c]);
    assert(seq![op1, l, op2].drop_last() =~= seq![op1, l]);
    assert(seq![a, b, c].push(op2) =~= seq![a, b, c, op2]);
    assert(seq![op1, l].drop_last() =~= seq![op1]);
    assert(seq![op1].drop_last() =~= e);
    assert(seq![a, b, c, op2].push(op1) =~= seq![a, b, c, op2, op1]);
}

/// How tightly the operator `t` binds (0 for a number or a bracket).
fn token_precedence(t: &CalcToken) -> (p: u8)
    ensures
        p as nat == precedence(t.term()),
{
    match t {
        CalcToken::Plus | CalcToken::Minus => 1,
        CalcToken::Multiply | CalcToken::Divide => 2,
        _ => 0,
    }
}

/// A token equal to `t`.
fn copy_token(t: &CalcToken) -> (r: CalcToken)
    ensures
        r.term() == t.term(),
{
    match t {
        CalcToken::Number(s) => CalcToken::Number(s.clone()),
        CalcToken::Plus => CalcToken::Plus,
        CalcToken::Minus => CalcToken::Minus,
        CalcToken::Multiply => CalcToken::Multiply,
        CalcToken::Divide => CalcToken::Divide,
        CalcToken::LParen => CalcToken::LParen,
        CalcToken::RParen => CalcToken::RParen,
    }
}

/// Moves operators from the top of `stack` to `out` while the top is no
/// opening bracket and binds at least as tightly as `p`.
fn pop_operators(out: &mut Vec<CalcToken>, stack: &mut Vec<CalcToken>, p: u8)
    ensures
        (terms(final(out)@), terms(final(stack)@)) == pop_while(terms(old(out)@), terms(old(stack)@), p as nat),
    decreases old(stack)@.len(),
{
    if stack.len() == 0 {
        return;
    }
    let n = stack.len() - 1;
    let pops = match &stack[n] {
        CalcToken::LParen => false,
        top => token_precedence(top) >= p,
    };
    proof {
        lemma_terms_drop_last(stack@);
    }
    if pops {
        let top = stack.pop().unwrap();
        proof {
            lemma_terms_push(out@, top);
        }
        out.push(top);
        pop_operators(out, stack, p);
    }
}

/// The error text for brackets that do not match.
pub fn mismatch_message() -> (m: String)
    ensures
        m@ == mismatch_text(),
{
    let mut m = String::new();
    push_str(&mut m, "括号不匹配");
    assert(m@ =~= mismatch_text());
    m
}

/// The tokens in postfix order by the shunting-yard algorithm: `*` and `/`
/// bind tighter than `+` and `-`, operators of one level group to the left,
/// and brackets group. An error when the brackets do not match.
pub fn to_postfix(tokens: &Vec<CalcToken>) -> (r: Result<Vec<CalcToken>, String>)
    ensures
        r is Ok <==> brackets_balanced(terms(tokens@)),
        r matches Ok(p) ==> postfix_of(terms(tokens@)) == Some(terms(p@)),
        r matches Err(m) ==> postfix_of(terms(tokens@)) is None && m@ == mismatch_text(),
{
    let ghost ts = terms(tokens@);
    proof {
        law_postfix_iff_balanced(ts);
    }
    let mut out: Vec<CalcToken> = Vec::new();
    let mut stack: Vec<CalcToken> = Vec::new();
    let mut i: usize = 0;
    assert(terms(out@) =~= Seq::<CalcTerm>::empty());
    assert(terms(stack@) =~= Seq::<CalcTerm>::empty());
    while i < tokens.len()
        invariant
            i <= tokens@.len(),
            ts == terms(tokens@),
            postfix_of(ts) is Some <==> brackets_balanced(ts),
            postfix_of(ts) == shunt(ts, i as int, terms(out@), terms(stack@)),
        decreases tokens.len() - i,
    {
        let t = &tokens[i];
        assert(ts[i as int] == t.term());
        match t {
            CalcToken::Number(_) => {
                let c = copy_token(t);
                proof {
                    lemma_terms_push(out@, c);
                }
                out.push(c);
            },
            CalcToken::LParen => {
                proof {
                    lemma_terms_push(stack@, CalcToken::LParen);
                }
                stack.push(CalcToken::LParen);
            },
            CalcToken::RParen => {
                pop_operators(&mut out, &mut stack, 0);
                let open = stack.len() > 0 && match &stack[stack.len() - 1] {
                    CalcToken::LParen => true,
                    _ => false,
                };
                if stack.len() > 0 {
                    proof {
                        lemma_terms_drop_last(stack@);
                    }
                }
                if !open {
                    return Err(mismatch_message());
                }
                stack.pop();
            },
            _ => {
                let p = token_precedence(t);
                pop_operators(&mut out, &mut stack, p);
                let c = copy_token(t);
                proof {
                    lemma_terms_push(stack@, c);
                }
                stack.push(c);
            },
        }
        i += 1;
    }
    while stack.len() > 0
        invariant
            ts == terms(tokens@),
            postfix_of(ts) is Some <==> brackets_balanced(ts),
            postfix_of(ts) == drain(terms(out@), terms(stack@)),
        decreases stack.len(),
    {
        proof {
            lemma_terms_drop_last(stack@);
        }
        let top = stack.pop().unwrap();
        if let CalcToken::LParen = top {
            return Err(mismatch_message());
        }
        proof {
            lemma_terms_push(out@, top);
        }
        out.push(top);
    }
    Ok(out)
}

} // verus!
