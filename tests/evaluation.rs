use loxide::ast_printer::AstPrinter;
use loxide::driver::{process_line, run};
use loxide::error_report::LoxErrorReport;
use loxide::expression::{Binary, Expression, Grouping, Literal as LiteralExpr, Ternary, Unary};
use loxide::interpreter::{evaluate_equal, interpret, is_truthy, RuntimeError};
use loxide::numbers::Numbers;
use loxide::parser::Parser;
use loxide::scanner::{PossibleToken, Scanner};
use loxide::text::decimal_text;
use loxide::token::{keyword, Literal, LoxTokenError, Token, TokenType};

struct Floats;

impl Numbers for Floats {
    fn parsed(&self, text: String) -> Option<u64> {
        text.parse::<f64>().ok().map(f64::to_bits)
    }

    fn sum(&self, a: u64, b: u64) -> u64 {
        (f64::from_bits(a) + f64::from_bits(b)).to_bits()
    }

    fn difference(&self, a: u64, b: u64) -> u64 {
        (f64::from_bits(a) - f64::from_bits(b)).to_bits()
    }

    fn product(&self, a: u64, b: u64) -> u64 {
        (f64::from_bits(a) * f64::from_bits(b)).to_bits()
    }

    fn quotient(&self, a: u64, b: u64) -> u64 {
        (f64::from_bits(a) / f64::from_bits(b)).to_bits()
    }

    fn text_of(&self, a: u64) -> String {
        f64::from_bits(a).to_string()
    }

    fn parse(&self, text: &String) -> Option<u64> {
        self.parsed(text.clone())
    }

    fn add(&self, a: u64, b: u64) -> u64 {
        self.sum(a, b)
    }

    fn subtract(&self, a: u64, b: u64) -> u64 {
        self.difference(a, b)
    }

    fn multiply(&self, a: u64, b: u64) -> u64 {
        self.product(a, b)
    }

    fn divide(&self, a: u64, b: u64) -> u64 {
        self.quotient(a, b)
    }

    fn to_text(&self, a: u64) -> String {
        self.text_of(a)
    }
}

fn number(x: f64) -> Literal {
    Literal::Number(x.to_bits())
}

fn literal(value: Option<Literal>) -> Expression {
    Expression::Literal(LiteralExpr { value })
}

fn token(kind: TokenType, lexeme: &str) -> Token {
    Token { token_type: kind, lexeme: lexeme.to_string(), literal: None, line_number: 0 }
}

fn binary(left: Literal, kind: TokenType, lexeme: &str, right: Literal) -> Expression {
    Expression::Binary(Binary {
        left: Box::new(literal(Some(left))),
        operator: token(kind, lexeme),
        right: Box::new(literal(Some(right))),
    })
}

fn unary(kind: TokenType, lexeme: &str, right: Literal) -> Expression {
    Expression::Unary(Unary { operator: token(kind, lexeme), right: Box::new(literal(Some(right))) })
}

fn evaluate_source(source: &str) -> Result<Option<Literal>, RuntimeError> {
    let tokens: Vec<Token> = Scanner::scan_tokens(source, &Floats)
        .into_iter()
        .map(|p| match p {
            PossibleToken::Token(t) => t,
            PossibleToken::Error(e) => panic!("lexical error: {}", e.message),
        })
        .collect();
    let mut parser = Parser::new(tokens);
    let expr = parser.parse().unwrap();
    interpret(&expr, &Floats)
}

fn parse_source(source: &str) -> Expression {
    let tokens: Vec<Token> = Scanner::scan_tokens(source, &Floats)
        .into_iter()
        .map(|p| match p {
            PossibleToken::Token(t) => t,
            PossibleToken::Error(e) => panic!("lexical error: {}", e.message),
        })
        .collect();
    Parser::new(tokens).parse().unwrap()
}

fn parse_error(source: &str) -> (usize, String, String) {
    let tokens: Vec<Token> = Scanner::scan_tokens(source, &Floats)
        .into_iter()
        .filter_map(|p| match p {
            PossibleToken::Token(t) => Some(t),
            PossibleToken::Error(_) => None,
        })
        .collect();
    let err = Parser::new(tokens).parse().unwrap_err();
    (err.token.line_number, err.token.lexeme, err.message)
}

#[test]
fn it_works() {
    let result = 2 + 2;
    assert_eq!(result, 4);
}

#[test]
fn test_literal_equality() {
    assert_eq!(number(1.0), number(1.0));
    assert_ne!(number(1.0), number(2.0));
    assert_eq!(Literal::String("hello".to_string()), Literal::String("hello".to_string()));
    assert_ne!(Literal::String("hello".to_string()), Literal::String("world".to_string()));
    assert_eq!(Literal::Boolean(true), Literal::Boolean(true));
    assert_ne!(Literal::Boolean(true), Literal::Boolean(false));
}

#[test]
fn literal_truthiness() {
    let cases = [
        (Literal::Boolean(true), true),
        (Literal::Boolean(false), false),
        (number(1.0), true),
        (number(0.0), true),
        (Literal::String("hello".to_string()), true),
        (Literal::String("false".to_string()), true),
        (Literal::String("true".to_string()), true),
        (Literal::String("".to_string()), true),
        (Literal::Identifier("foo".to_string()), true),
    ];
    for (literal, expected) in cases {
        assert_eq!(is_truthy(&Some(literal)), expected);
    }
    assert!(!is_truthy(&None));
}

#[test]
fn test_unary_minus() {
    let expr = unary(TokenType::Minus, "-", number(1.0));
    assert_eq!(interpret(&expr, &Floats), Ok(Some(number(-1.0))));
}

#[test]
fn unary_minus_needs_a_number() {
    let expr = unary(TokenType::Minus, "-", Literal::String("a".to_string()));
    assert_eq!(
        interpret(&expr, &Floats),
        RuntimeError::with_token("Operands must be numbers.".to_string(), token(TokenType::Minus, "-"))
    );
}

#[test]
fn unary_bang() {
    let cases = [
        (Literal::Boolean(true), false),
        (Literal::Boolean(false), true),
        (number(1.0), false),
        (Literal::String("hello".to_string()), false),
        (Literal::String("false".to_string()), false),
        (Literal::String("true".to_string()), false),
        (Literal::String("".to_string()), false),
        (Literal::Identifier("foo".to_string()), false),
    ];
    for (input, expected) in cases {
        let expr = unary(TokenType::Bang, "!", input);
        assert_eq!(interpret(&expr, &Floats), Ok(Some(Literal::Boolean(expected))));
    }
}

#[test]
fn binary_plus() {
    let s = |t: &str| Literal::String(t.to_string());
    let cases = [
        (number(1.0), number(2.0), number(3.0)),
        (s("hello"), s("world"), s("helloworld")),
        (s("hello"), number(1.0), s("hello1")),
        (number(1.0), s("hello"), s("1hello")),
        (s("hello"), s(""), s("hello")),
        (s("hello"), Literal::Boolean(true), s("hellotrue")),
    ];
    for (left, right, expected) in cases {
        let expr = binary(left, TokenType::Plus, "+", right);
        assert_eq!(interpret(&expr, &Floats), Ok(Some(expected)));
    }
}

#[test]
fn plus_joins_nil_as_text() {
    let expr = Expression::Binary(Binary {
        left: Box::new(literal(Some(Literal::String("x".to_string())))),
        operator: token(TokenType::Plus, "+"),
        right: Box::new(literal(None)),
    });
    assert_eq!(interpret(&expr, &Floats), Ok(Some(Literal::String("xnil".to_string()))));
}

#[test]
fn plus_rejects_other_operands() {
    let expr = binary(Literal::Boolean(true), TokenType::Plus, "+", number(1.0));
    assert_eq!(
        interpret(&expr, &Floats),
        RuntimeError::with_token(
            "operands must be numbers or strings.".to_string(),
            token(TokenType::Plus, "+")
        )
    );
}

#[test]
fn binary_arithmetic() {
    let cases = [
        (TokenType::Minus, "-", 3.0, 2.0, 1.0),
        (TokenType::Slash, "/", 6.0, 3.0, 2.0),
        (TokenType::Star, "*", 2.0, 1.0, 2.0),
    ];
    for (kind, lexeme, left, right, expected) in cases {
        let expr = binary(number(left), kind, lexeme, number(right));
        assert_eq!(interpret(&expr, &Floats), Ok(Some(number(expected))));
    }
}

#[test]
fn arithmetic_needs_numbers() {
    for (kind, lexeme) in [(TokenType::Minus, "-"), (TokenType::Slash, "/"), (TokenType::Star, "*")] {
        let expr = binary(number(1.0), kind, lexeme, Literal::Boolean(true));
        assert_eq!(
            interpret(&expr, &Floats),
            RuntimeError::with_token("Operands must be numbers.".to_string(), token(kind, lexeme))
        );
    }
}

#[test]
fn binary_comparison() {
    let cases = [
        (TokenType::Greater, ">", 2.0, 1.0),
        (TokenType::GreaterEqual, ">=", 2.0, 2.0),
        (TokenType::Less, "<", 1.0, 2.0),
        (TokenType::LessEqual, "<=", 2.0, 2.0),
    ];
    for (kind, lexeme, left, right) in cases {
        let expr = binary(number(left), kind, lexeme, number(right));
        assert_eq!(interpret(&expr, &Floats), Ok(Some(Literal::Boolean(true))));
    }
}

#[test]
fn comparison_follows_ieee_order() {
    let cases = [
        (TokenType::Less, "<", -1.0, 0.0, true),
        (TokenType::Less, "<", -0.0, 0.0, false),
        (TokenType::LessEqual, "<=", -0.0, 0.0, true),
        (TokenType::Less, "<", -3.0, -2.0, true),
        (TokenType::Greater, ">", f64::INFINITY, 1e300, true),
        (TokenType::Less, "<", f64::NAN, 1.0, false),
        (TokenType::GreaterEqual, ">=", f64::NAN, f64::NAN, false),
        (TokenType::Greater, ">", 1.5, 2.5, false),
    ];
    for (kind, lexeme, left, right, expected) in cases {
        let expr = binary(number(left), kind, lexeme, number(right));
        assert_eq!(interpret(&expr, &Floats), Ok(Some(Literal::Boolean(expected))));
    }
}

#[test]
fn binary_comparison_non_numbers() {
    let s = |t: &str| Literal::String(t.to_string());
    let cases = [
        (TokenType::Greater, ">", s("hello"), s("world")),
        (TokenType::Greater, ">", Literal::Boolean(true), Literal::Boolean(false)),
        (TokenType::LessEqual, "<=", s("hello"), s("world")),
        (TokenType::LessEqual, "<=", Literal::Boolean(true), Literal::Boolean(false)),
        (TokenType::Less, "<", s("hello"), s("world")),
        (TokenType::Less, "<", Literal::Boolean(true), Literal::Boolean(false)),
        (TokenType::GreaterEqual, ">=", s("hello"), s("world")),
        (TokenType::GreaterEqual, ">=", Literal::Boolean(true), Literal::Boolean(false)),
    ];
    for (kind, lexeme, left, right) in cases {
        let expr = binary(left, kind, lexeme, right);
        assert_eq!(interpret(&expr, &Floats), Ok(Some(Literal::Boolean(false))));
    }
}

#[test]
fn binary_equality() {
    let s = |t: &str| Literal::String(t.to_string());
    let cases = [
        (TokenType::EqualEqual, "==", number(1.0), number(1.0)),
        (TokenType::BangEqual, "!=", number(1.0), number(2.0)),
        (TokenType::EqualEqual, "==", s("hello"), s("hello")),
        (TokenType::BangEqual, "!=", s("hello"), s("hello world")),
        (TokenType::EqualEqual, "==", Literal::Boolean(true), Literal::Boolean(true)),
        (TokenType::BangEqual, "!=", Literal::Boolean(true), Literal::Boolean(false)),
    ];
    for (kind, lexeme, left, right) in cases {
        let expr = binary(left, kind, lexeme, right);
        assert_eq!(interpret(&expr, &Floats), Ok(Some(Literal::Boolean(true))));
    }
}

#[test]
fn equality_of_values() {
    assert!(evaluate_equal(&None, &None));
    assert!(!evaluate_equal(&None, &Some(Literal::Boolean(false))));
    assert!(!evaluate_equal(&Some(number(0.0)), &None));
    assert!(!evaluate_equal(&Some(number(1.0)), &Some(Literal::String("1".to_string()))));
    assert!(evaluate_equal(&Some(number(0.0)), &Some(number(-0.0))));
    assert!(!evaluate_equal(&Some(number(f64::NAN)), &Some(number(f64::NAN))));
    assert!(evaluate_equal(
        &Some(Literal::Identifier("a".to_string())),
        &Some(Literal::Identifier("a".to_string()))
    ));
    assert!(!evaluate_equal(
        &Some(Literal::Identifier("a".to_string())),
        &Some(Literal::String("a".to_string()))
    ));
}

#[test]
fn test_divide_by_zero() {
    let operator = token(TokenType::Slash, "/");
    let expr = Expression::Binary(Binary {
        left: Box::new(literal(Some(number(1.0)))),
        operator: operator.clone(),
        right: Box::new(literal(Some(number(0.0)))),
    });
    assert_eq!(
        interpret(&expr, &Floats),
        RuntimeError::with_token("Division by zero.".to_string(), operator)
    );
}

#[test]
fn divide_by_negative_zero() {
    let expr = binary(number(1.0), TokenType::Slash, "/", number(-0.0));
    assert_eq!(
        interpret(&expr, &Floats),
        RuntimeError::with_token("Division by zero.".to_string(), token(TokenType::Slash, "/"))
    );
}

#[test]
fn test_grouping() {
    let expr = Expression::Grouping(Grouping { expression: Box::new(literal(Some(number(1.0)))) });
    assert_eq!(interpret(&expr, &Floats), Ok(Some(number(1.0))));
}

#[test]
fn unknown_operator_is_reported() {
    let expr = binary(number(1.0), TokenType::Dot, ".", number(2.0));
    assert_eq!(
        interpret(&expr, &Floats),
        RuntimeError::with_token("Unexpected operator".to_string(), token(TokenType::Dot, "."))
    );
}

#[test]
fn runtime_error_constructors() {
    assert_eq!(
        RuntimeError::new("m".to_string()),
        Err(RuntimeError { message: "m".to_string(), token: None })
    );
    assert_eq!(
        RuntimeError::operands_must_be_numbers(token(TokenType::Minus, "-")),
        Err(RuntimeError {
            message: "Operands must be numbers.".to_string(),
            token: Some(token(TokenType::Minus, "-"))
        })
    );
}

#[test]
fn test_parses_simple_expression() {
    let mut parser = Parser::new(vec![
        Token {
            token_type: TokenType::Number,
            lexeme: "123".to_string(),
            literal: Some(number(123.0)),
            line_number: 1,
        },
        Token { token_type: TokenType::Eof, lexeme: "".to_string(), literal: None, line_number: 1 },
    ]);

    let expr = parser.parse().unwrap();

    assert_eq!(expr, literal(Some(number(123.0))));
}

#[test]
fn test_astprinter_print() {
    let mut ast_printer = AstPrinter::new();

    // Expression for -123 * (45.67)
    let expr = Expression::Binary(Binary {
        left: Box::new(Expression::Unary(Unary {
            operator: Token {
                token_type: TokenType::Minus,
                lexeme: "-".to_string(),
                literal: None,
                line_number: 1,
            },
            right: Box::new(literal(Some(number(123.0)))),
        })),
        operator: Token {
            token_type: TokenType::Star,
            lexeme: "*".to_string(),
            literal: None,
            line_number: 1,
        },
        right: Box::new(Expression::Grouping(Grouping {
            expression: Box::new(literal(Some(number(45.67)))),
        })),
    });
    let result = ast_printer.print(&expr, &Floats);

    assert_eq!(result, "(* (- 123) (group 45.67))");
}

#[test]
fn printer_renders_parsed_source() {
    let expr = parse_source("-123 * (45.67)");
    assert_eq!(AstPrinter::new().print(&expr, &Floats), "(* (- 123) (group 45.67))");
    let expr = parse_source("true ? nil : \"s\"");
    assert_eq!(AstPrinter::new().print(&expr, &Floats), "(?: true nil s)");
}

#[test]
fn precedence_and_associativity() {
    let expr = parse_source("1 - 2 - 3");
    assert_eq!(AstPrinter::new().print(&expr, &Floats), "(- (- 1 2) 3)");
    let expr = parse_source("1 + 2 * 3 == 7 , 4");
    assert_eq!(AstPrinter::new().print(&expr, &Floats), "(, (== (+ 1 (* 2 3)) 7) 4)");
    let expr = parse_source("!!true");
    assert_eq!(AstPrinter::new().print(&expr, &Floats), "(! (! true))");
    let expr = parse_source("1 , 2 ? 3 : 4");
    assert_eq!(AstPrinter::new().print(&expr, &Floats), "(, 1 (?: 2 3 4))");
}

#[test]
fn ternary_nests_to_the_right() {
    let expr = parse_source("false ? 1 : true ? 2 : 3");
    assert!(matches!(expr, Expression::Ternary(Ternary { .. })));
    assert_eq!(AstPrinter::new().print(&expr, &Floats), "(?: false 1 (?: true 2 3))");
    assert_eq!(interpret(&expr, &Floats), Ok(Some(number(2.0))));
}

#[test]
fn parse_errors() {
    assert_eq!(parse_error(")"), (0, ")".to_string(), "Expect expression.".to_string()));
    assert_eq!(parse_error(""), (0, "".to_string(), "Expect expression.".to_string()));
    assert_eq!(
        parse_error("(1 + 2"),
        (0, "".to_string(), "Expect ')' after expression.".to_string())
    );
    assert_eq!(
        parse_error("true ? 1 2"),
        (0, "2".to_string(), "Expected ':' after then branch".to_string())
    );
    assert_eq!(parse_error("1 +\n*"), (1, "*".to_string(), "Expect expression.".to_string()));
}

#[test]
fn number_literal_evaluates_to_its_value() {
    for (text, value) in [("0", 0.0), ("3.14", 3.14), ("12345", 12345.0), ("0.1", 0.1), ("7.", 7.0)] {
        assert_eq!(evaluate_source(text), Ok(Some(number(value))));
    }
}

#[test]
fn addition_binds_tighter_than_comparison() {
    assert_eq!(evaluate_source("1 < 3 + 4"), Ok(Some(Literal::Boolean(true))));
}

#[test]
fn not_zero_is_false() {
    assert_eq!(evaluate_source("!0"), Ok(Some(Literal::Boolean(false))));
    assert_eq!(evaluate_source("!nil"), Ok(Some(Literal::Boolean(true))));
}

#[test]
fn division_by_zero_from_source() {
    match evaluate_source("1 / 0") {
        Err(e) => {
            assert_eq!(e.message, "Division by zero.");
            let t = e.token.unwrap();
            assert_eq!(t.token_type, TokenType::Slash);
            assert_eq!(t.lexeme, "/");
        }
        Ok(v) => panic!("unexpected value {:?}", v),
    }
}

#[test]
fn string_and_number_concatenate() {
    assert_eq!(evaluate_source("\"hello\" + 1"), Ok(Some(Literal::String("hello1".to_string()))));
    assert_eq!(evaluate_source("1 + \"hello\""), Ok(Some(Literal::String("1hello".to_string()))));
}

#[test]
fn number_never_equals_string() {
    assert_eq!(evaluate_source("1 == \"1\""), Ok(Some(Literal::Boolean(false))));
}

#[test]
fn ternary_skips_the_else_branch() {
    assert_eq!(evaluate_source("true ? 1 : (1/0)"), Ok(Some(number(1.0))));
    assert!(evaluate_source("false ? 1 : (1/0)").is_err());
}

#[test]
fn run_prints_the_value() {
    assert_eq!(run("1 + 2", &Floats), vec!["3".to_string()]);
    assert_eq!(run("nil", &Floats), vec!["nil".to_string()]);
    assert_eq!(run("\"a\" + \"b\"", &Floats), vec!["ab".to_string()]);
    assert_eq!(run("2 >= 3", &Floats), vec!["false".to_string()]);
}

#[test]
fn run_reports_each_kind_of_error() {
    assert_eq!(
        run("1 @ + 2", &Floats),
        vec!["Error on line 0: Invalid token at line 0 pos 2: @".to_string(), "3".to_string()]
    );
    assert_eq!(run("\n(1", &Floats), vec!["Error on line 1: Expect ')' after expression.".to_string()]);
    assert_eq!(run("\n\n-\"a\"", &Floats), vec!["Operands must be numbers. [line 2]".to_string()]);
}

#[test]
fn process_line_quits_on_exit() {
    assert!(process_line("exit", &Floats).is_none());
    assert!(process_line("  exit\n", &Floats).is_none());
    assert_eq!(
        process_line("exit2", &Floats),
        Some(vec!["Error on line 0: Expect expression.".to_string()])
    );
    assert_eq!(process_line("4 * 2\n", &Floats), Some(vec!["8".to_string()]));
}

#[test]
fn keyword_table() {
    assert_eq!(keyword(&"while".to_string()), Some(TokenType::While));
    assert_eq!(keyword(&"whilst".to_string()), None);
}

#[test]
fn reports_and_decimals() {
    assert_eq!(decimal_text(0), "0");
    assert_eq!(decimal_text(1907), "1907");
    let report = LoxErrorReport::new(3, "here".to_string(), "bad".to_string());
    assert_eq!(report.to_text(), "Line: 3, Loc: here, Message: bad");
    let e = LoxTokenError::new(2, "there".to_string(), "worse".to_string());
    assert_eq!((e.line_number, e.location.as_str(), e.message.as_str()), (2, "there", "worse"));
}
