//! One pass of the pipeline over a source text: scan, report lexical
//! errors, parse the valid tokens, evaluate, and render what is printed.
use vstd::prelude::*;
use crate::interpreter::{display_text, evaluation, interpret, outcome_of, shown, Evaluation, Outcome};
use crate::numbers::Numbers;
use crate::parser::{number_token_parses_to_its_value, parse_tokens, well_formed, Parsed, Parser};
use crate::scanner::{
    lemma_scan_ends_with_eof, produced, produced_all, scan, valued, PossibleToken, ScanItem, Scanner,
};
use crate::text::{decimal, push_decimal};
use crate::token::{Literal, Token, TokenType};

verus! {

/// The tokens of a scan, without its errors.
pub open spec fn valid_tokens(ps: Seq<PossibleToken>) -> Seq<Token>
    decreases ps.len(),
{
    if ps.len() == 0 {
        Seq::empty()
    } else {
        let before = valid_tokens(ps.drop_last());
        match ps.last() {
            PossibleToken::Token(t) => before.push(t),
            PossibleToken::Error(_) => before,
        }
    }
}

/// `Error on line N: message`.
pub open spec fn error_line(line: nat, message: Seq<char>) -> Seq<char> {
    "Error on line "@ + decimal(line) + ": "@ + message
}

/// One report line per lexical error of a scan, in order.
pub open spec fn lexical_lines(ps: Seq<PossibleToken>) -> Seq<Seq<char>>
    decreases ps.len(),
{
    if ps.len() == 0 {
        Seq::empty()
    } else {
        let before = lexical_lines(ps.drop_last());
        match ps.last() {
            PossibleToken::Token(_) => before,
            PossibleToken::Error(e) => before.push(error_line(e.line_number as nat, e.message@)),
        }
    }
}

/// The line printed for an evaluation: the value's text, or the error's
/// message followed by ` [line N]` when it has a token.
pub open spec fn result_line<N: Numbers>(numbers: N, o: Outcome) -> Seq<char> {
    match o {
        Outcome::Value(v) => shown(numbers, v),
        Outcome::Failure(message, token) => message + match token {
            Some(t) => " [line "@ + decimal(t.line_number as nat) + "]"@,
            None => Seq::empty(),
        },
    }
}

pub open spec fn texts(lines: Seq<String>) -> Seq<Seq<char>> {
    lines.map_values(|l: String| l@)
}

/// The lines of a run over the scan `ps`: its lexical errors, then the
/// parse error, or the result of evaluating the tree.
pub open spec fn reported<N: Numbers>(numbers: N, ps: Seq<PossibleToken>, lines: Seq<Seq<char>>) -> bool {
    let errors = lexical_lines(ps);
    let ts = valid_tokens(ps);
    &&& lines.len() == errors.len() + 1
    &&& lines.subrange(0, errors.len() as int) == errors
    &&& match parse_tokens(ts) {
        Parsed::Failed(k, message) => 0 <= k < ts.len() && lines.last() == error_line(
            ts[k].line_number as nat,
            message,
        ),
        Parsed::Done(e, _) => lines.last() == result_line(numbers, evaluation(numbers, e)),
    }
}

fn error_line_text(line: usize, message: &String) -> (r: String)
    ensures
        r@ == error_line(line as nat, message@),
{
    let mut out = String::from_str("Error on line ");
    push_decimal(&mut out, line);
    out.append(": ");
    out.append(message.as_str());
    out
}

/// Separates the tokens of a scan from report lines for its errors.
fn split_tokens(ps: &Vec<PossibleToken>) -> (r: (Vec<Token>, Vec<String>))
    ensures
        r.0@ == valid_tokens(ps@),
        texts(r.1@) == lexical_lines(ps@),
{
    let mut tokens: Vec<Token> = Vec::new();
    let mut lines: Vec<String> = Vec::new();
    let mut i: usize = 0;
    while i < ps.len()
        invariant
            i <= ps@.len(),
            tokens@ == valid_tokens(ps@.subrange(0, i as int)),
            texts(lines@) == lexical_lines(ps@.subrange(0, i as int)),
        decreases ps@.len() - i,
    {
        let ghost prefix = ps@.subrange(0, i as int + 1);
        assert(prefix.drop_last() =~= ps@.subrange(0, i as int));
        match &ps[i] {
            PossibleToken::Token(t) => {
                tokens.push(t.duplicate());
            },
            PossibleToken::Error(e) => {
                let ghost before = lines@;
                lines.push(error_line_text(e.line_number, &e.message));
                assert(texts(lines@) =~= texts(before).push(lines@.last()@));
            },
        }
        i += 1;
    }
    assert(ps@.subrange(0, ps@.len() as int) =~= ps@);
    (tokens, lines)
}

/// The line printed for an evaluation.
fn result_text<N: Numbers>(r: &Evaluation, numbers: &N) -> (line: String)
    ensures
        line@ == result_line(*numbers, outcome_of(*r)),
{
    match r {
        Ok(v) => display_text(v, numbers),
        Err(e) => {
            let mut out = e.message.clone();
            match &e.token {
                Some(t) => {
                    out.append(" [line ");
                    push_decimal(&mut out, t.line_number);
                    out.append("]");
                    assert(out@ =~= e.message@ + (" [line "@ + decimal(t.line_number as nat) + "]"@));
                },
                None => {
                    assert(out@ =~= e.message@ + Seq::<char>::empty());
                },
            }
            out
        },
    }
}

/// The lines printed for a scan.
fn report<N: Numbers>(ps: &Vec<PossibleToken>, numbers: &N) -> (r: Vec<String>)
    requires
        ps@.len() > 0,
        ps@.last() matches PossibleToken::Token(t) && t.token_type == TokenType::Eof,
    ensures
        reported(*numbers, ps@, texts(r@)),
{
    let (tokens, mut lines) = split_tokens(ps);
    let ghost ts = tokens@;
    let ghost errors = texts(lines@);
    assert(well_formed(ts));
    let mut parser = Parser::new(tokens);
    let line = match parser.parse() {
        Err(err) => error_line_text(err.token.line_number, &err.message),
        Ok(expr) => {
            let r = interpret(&expr, numbers);
            result_text(&r, numbers)
        },
    };
    let ghost before = lines@;
    lines.push(line);
    assert(texts(lines@) =~= errors.push(line@));
    assert(texts(lines@).subrange(0, errors.len() as int) =~= errors);
    lines
}

/// Runs the pipeline over a source text and returns the lines to print.
pub fn run<N: Numbers>(lox_str: &str, numbers: &N) -> (r: Vec<String>)
    ensures
        exists|ps: Seq<PossibleToken>| #[trigger]
            produced_all(*numbers, ps, scan(lox_str@)) && reported(*numbers, ps, texts(r@)),
{
    let ps = Scanner::scan_tokens(lox_str, numbers);
    proof {
        lemma_scan_ends_with_eof(crate::scanner::graphemes_of(lox_str@), 0, 0);
        assert(produced(ps@.last(), scan(lox_str@).last()));
    }
    let r = report(&ps, numbers);
    assert(produced_all(*numbers, ps@, scan(lox_str@)) && reported(*numbers, ps@, texts(r@)));
    r
}

/// Text with leading and trailing whitespace removed.
pub uninterp spec fn trimmed(s: Seq<char>) -> Seq<char>;

/// Relies on str::trim: the text without leading and trailing white space.
#[verifier::external_body]
fn trim(s: &str) -> (r: String)
    ensures
        r@ == trimmed(s@),
{
    s.trim().to_string()
}

/// One line of interactive input: `None` where it asks to quit (`exit`,
/// surrounded by white space or not), else the lines to print for it.
pub fn process_line<N: Numbers>(line: &str, numbers: &N) -> (r: Option<Vec<String>>)
    ensures
        r is None <==> trimmed(line@) == "exit"@,
        r matches Some(lines) ==> exists|ps: Seq<PossibleToken>| #[trigger]
            produced_all(*numbers, ps, scan(line@)) && reported(*numbers, ps, texts(lines@)),
{
    if trim(line) == String::from_str("exit") {
        return None;
    }
    Some(run(line, numbers))
}

/// A source that scans to one number literal runs to one line: the number
/// system's text of the value it reads in the literal. (With
/// `digits_scan_to_one_number`, this holds of every run of digits with at
/// most one point.)
pub proof fn number_literal_prints_its_value<N: Numbers>(
    numbers: N,
    ps: Seq<PossibleToken>,
    lexeme: Seq<char>,
    lines: Seq<Seq<char>>,
)
    requires
        produced_all(
            numbers,
            ps,
            seq![
                ScanItem::Number { lexeme, line: 0, pos: 0 },
                ScanItem::Plain { kind: TokenType::Eof, lexeme: Seq::empty(), line: 0 },
            ],
        ),
        ps[0] is Token,
        reported(numbers, ps, lines),
    ensures
        ps[0] matches PossibleToken::Token(t) && numbers.parsed(t.lexeme) matches Some(v) && lines
            == seq![numbers.text_of(v)@],
{
    let items = seq![
        ScanItem::Number { lexeme, line: 0, pos: 0 },
        ScanItem::Plain { kind: TokenType::Eof, lexeme: Seq::empty(), line: 0 },
    ];
    assert(produced(ps[0], items[0]) && valued(numbers, ps[0], items[0]));
    assert(produced(ps[1], items[1]));
    let t = ps[0]->Token_0;
    let eof = ps[1]->Token_0;
    let v = numbers.parsed(t.lexeme)->0;
    assert(ps.drop_last().drop_last() =~= Seq::<PossibleToken>::empty());
    assert(ps.drop_last().last() == ps[0]);
    assert(ps.last() == ps[1]);
    assert(valid_tokens(ps.drop_last().drop_last()) == Seq::<Token>::empty());
    assert(lexical_lines(ps.drop_last().drop_last()) == Seq::<Seq<char>>::empty());
    assert(valid_tokens(ps.drop_last()) =~= seq![t]);
    assert(lexical_lines(ps.drop_last()) == Seq::<Seq<char>>::empty());
    assert(valid_tokens(ps) =~= seq![t, eof]);
    assert(lexical_lines(ps) == Seq::<Seq<char>>::empty());
    number_token_parses_to_its_value(t, eof, v);
    assert(evaluation(numbers, crate::parser::literal(Some(Literal::Number(v)))) == Outcome::Value(
        Some(crate::interpreter::Value::Number(v)),
    ));
    assert(lines =~= seq![numbers.text_of(v)@]);
}

} // verus!
