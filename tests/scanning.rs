use loxide::numbers::Numbers;
use loxide::scanner::{is_alpha, is_alphanumeric, is_digit, PossibleToken, Scanner};
use loxide::token::{Literal, Token, TokenType};

struct Floats;

impl Numbers for Floats {
    fn parsed(&self, text: String) -> Option<u64> {
        text.parse::<f64>().ok().map(f64::to_bits)
    }

    fn sum(&self, a: u64, b: u64) -> u64 {
        (f64::from_bits(a) + f64::from_bits(b)).to_bits()
    }

    fn difference(&self, a: u64, b: u64) -> u64 {
        (f64::from_bits(a) - f64::from_bits(b)).to_bits()
    }

    fn product(&self, a: u64, b: u64) -> u64 {
        (f64::from_bits(a) * f64::from_bits(b)).to_bits()
    }

    fn quotient(&self, a: u64, b: u64) -> u64 {
        (f64::from_bits(a) / f64::from_bits(b)).to_bits()
    }

    fn text_of(&self, a: u64) -> String {
        f64::from_bits(a).to_string()
    }

    fn parse(&self, text: &String) -> Option<u64> {
        self.parsed(text.clone())
    }

    fn add(&self, a: u64, b: u64) -> u64 {
        self.sum(a, b)
    }

    fn subtract(&self, a: u64, b: u64) -> u64 {
        self.difference(a, b)
    }

    fn multiply(&self, a: u64, b: u64) -> u64 {
        self.product(a, b)
    }

    fn divide(&self, a: u64, b: u64) -> u64 {
        self.quotient(a, b)
    }

    fn to_text(&self, a: u64) -> String {
        self.text_of(a)
    }
}

fn unwrap_token(p: &PossibleToken) -> Token {
    match p {
        PossibleToken::Token(t) => t.clone(),
        PossibleToken::Error(e) => panic!("Error token: {}", e.message),
    }
}

fn scan(source: &str) -> Vec<PossibleToken> {
    Scanner::scan_tokens(source, &Floats)
}

fn assert_scans(input: &str, expected: &[(TokenType, &str)]) {
    let tokens = scan(input);
    assert_eq!(tokens.len(), expected.len());
    for (i, token) in tokens.iter().enumerate() {
        let token = unwrap_token(token);
        assert_eq!(token.token_type, expected[i].0);
        assert_eq!(token.lexeme, expected[i].1);
    }
}

fn assert_identifier(input: &str, kind: TokenType, text: &str) {
    let tokens = scan(input);
    assert_eq!(tokens.len(), 2);
    let token = unwrap_token(&tokens[0]);
    assert_eq!(token.token_type, kind);
    assert_eq!(token.lexeme, text);
    assert_eq!(token.literal, Some(Literal::Identifier(text.to_string())));
    assert_eq!(unwrap_token(&tokens[1]).token_type, TokenType::Eof);
}

fn assert_only_eof(input: &str) {
    let tokens = scan(input);
    assert_eq!(tokens.len(), 1);
    assert_eq!(unwrap_token(&tokens[0]).token_type, TokenType::Eof);
}

#[test]
fn test_is_digit() {
    for i in 0..10 {
        assert!(is_digit(&i.to_string()));
    }

    for c in "abcdefghijklmnopqrstuvwxyz$&~".chars() {
        assert!(!is_digit(&c.to_string()));
    }
}

#[test]
fn alpha_and_alphanumeric_classes() {
    assert!(is_alpha("a"));
    assert!(is_alpha("_"));
    assert!(is_alpha("é"));
    assert!(!is_alpha("1"));
    assert!(!is_alpha("$"));
    assert!(!is_alpha(""));
    assert!(is_alphanumeric("1"));
    assert!(is_alphanumeric("z"));
    assert!(is_alphanumeric("_"));
    assert!(!is_alphanumeric("-"));
}

#[test]
fn scan_tokens_simple_digits() {
    assert_scans(
        "1 < 3 + 4",
        &[(TokenType::Number, "1"), (TokenType::Less, "<"), (TokenType::Number, "3"), (TokenType::Plus, "+"), (TokenType::Number, "4"), (TokenType::Eof, "")],
    );
}

#[test]
fn scan_tokens_digits_with_comments_and_string() {
    assert_scans(
        "1 < 3 + 4 // This is a comment\n\"Hello, world!\" 2 // This is another comment",
        &[
            (TokenType::Number, "1"),
            (TokenType::Less, "<"),
            (TokenType::Number, "3"),
            (TokenType::Plus, "+"),
            (TokenType::Number, "4"),
            (TokenType::String, "Hello, world!"),
            (TokenType::Number, "2"),
            (TokenType::Eof, ""),
        ],
    );
}

#[test]
fn scan_tokens_decimal_number() {
    assert_scans("1.234", &[(TokenType::Number, "1.234"), (TokenType::Eof, "")]);
}

#[test]
fn scan_tokens_complex_decimal_number() {
    assert_scans(
        "1.234.567.123",
        &[(TokenType::Number, "1.234"), (TokenType::Dot, "."), (TokenType::Number, "567.123"), (TokenType::Eof, "")],
    );
    let tokens = scan("1.234.567.123");
    assert_eq!(unwrap_token(&tokens[0]).literal, Some(Literal::Number(1.234f64.to_bits())));
    assert_eq!(unwrap_token(&tokens[2]).literal, Some(Literal::Number(567.123f64.to_bits())));
}

#[test]
fn scan_tokens_identifier() {
    assert_identifier("a", TokenType::Identifier, "a");
}

#[test]
fn scan_tokens_identifier_with_number() {
    assert_identifier("a1", TokenType::Identifier, "a1");
}

#[test]
fn scan_tokens_identifier_with_number_and_underscore() {
    assert_identifier("a1_", TokenType::Identifier, "a1_");
}

#[test]
fn scan_tokens_identifier_with_number_and_underscore_and_alpha() {
    assert_identifier("a1_b", TokenType::Identifier, "a1_b");
}

#[test]
fn scan_tokens_identifier_followed_by_comment() {
    assert_identifier("a1_b // This is a comment", TokenType::Identifier, "a1_b");
}

#[test]
fn scan_tokens_identifier_starting_with_underscore() {
    assert_identifier("_a", TokenType::Identifier, "_a");
}

#[test]
fn scan_tokens_identifier_keeps_combining_marks() {
    assert_identifier("cafe\u{301}", TokenType::Identifier, "cafe\u{301}");
}

#[test]
fn scan_tokens_keywords() {
    let cases = [
        ("and", TokenType::And),
        ("class", TokenType::Class),
        ("else", TokenType::Else),
        ("false", TokenType::False),
        ("for", TokenType::For),
        ("fun", TokenType::Fun),
        ("if", TokenType::If),
        ("nil", TokenType::Nil),
        ("or", TokenType::Or),
        ("print", TokenType::Print),
        ("return", TokenType::Return),
        ("super", TokenType::Super),
        ("this", TokenType::This),
        ("true", TokenType::True),
        ("var", TokenType::Var),
        ("while", TokenType::While),
    ];
    for (word, kind) in cases {
        assert_identifier(word, kind, word);
    }
}

#[test]
fn scan_tokens_single_line_comments() {
    assert_only_eof("// This is a comment\n// This is another comment");
}

#[test]
fn scan_tokens_block_comment() {
    assert_only_eof("/* This is a block comment */");
}

#[test]
fn scan_tokens_block_comment_with_newline() {
    assert_only_eof("/* This is a block comment\n            With a newline */");
}

#[test]
fn scan_tokens_nested_block_comment() {
    assert_only_eof("/* This is a block comment /* With a nested block comment */ */");
}

#[test]
fn nested_comment_then_identifier() {
    let tokens = scan("/* a /* b */ c */x");
    assert_eq!(tokens.len(), 2);
    let x = unwrap_token(&tokens[0]);
    assert_eq!(x.token_type, TokenType::Identifier);
    assert_eq!(x.literal, Some(Literal::Identifier("x".to_string())));
    assert_eq!(unwrap_token(&tokens[1]).token_type, TokenType::Eof);
}

#[test]
fn two_character_operators_take_the_longest_match() {
    assert_scans(
        "! != = == < <= > >=",
        &[
            (TokenType::Bang, "!"),
            (TokenType::BangEqual, "!="),
            (TokenType::Equal, "="),
            (TokenType::EqualEqual, "=="),
            (TokenType::Less, "<"),
            (TokenType::LessEqual, "<="),
            (TokenType::Greater, ">"),
            (TokenType::GreaterEqual, ">="),
            (TokenType::Eof, ""),
        ],
    );
}

#[test]
fn single_character_tokens() {
    assert_scans(
        "(){},.-+;*/?:",
        &[
            (TokenType::LeftParen, "("),
            (TokenType::RightParen, ")"),
            (TokenType::LeftBrace, "{"),
            (TokenType::RightBrace, "}"),
            (TokenType::Comma, ","),
            (TokenType::Dot, "."),
            (TokenType::Minus, "-"),
            (TokenType::Plus, "+"),
            (TokenType::Semicolon, ";"),
            (TokenType::Star, "*"),
            (TokenType::Slash, "/"),
            (TokenType::QuestionMark, "?"),
            (TokenType::Colon, ":"),
            (TokenType::Eof, ""),
        ],
    );
}

#[test]
fn unterminated_string_gives_one_error_and_no_token() {
    let tokens = scan("\"abc");
    assert_eq!(tokens.len(), 2);
    match &tokens[0] {
        PossibleToken::Error(e) => {
            assert_eq!(e.line_number, 0);
            assert_eq!(e.message, "Unterminated string at line 0 pos 0");
        }
        PossibleToken::Token(t) => panic!("unexpected token {:?}", t),
    }
    assert_eq!(unwrap_token(&tokens[1]).token_type, TokenType::Eof);
}

#[test]
fn unterminated_string_reports_its_starting_line() {
    let tokens = scan("1\n\"ab\ncd");
    assert_eq!(tokens.len(), 3);
    match &tokens[1] {
        PossibleToken::Error(e) => {
            assert_eq!(e.line_number, 1);
            assert_eq!(e.message, "Unterminated string at line 1 pos 2");
        }
        PossibleToken::Token(t) => panic!("unexpected token {:?}", t),
    }
    assert_eq!(unwrap_token(&tokens[2]).line_number, 2);
}

#[test]
fn multi_line_string_counts_lines() {
    let tokens = scan("\"a\nb\" x");
    let s = unwrap_token(&tokens[0]);
    assert_eq!(s.token_type, TokenType::String);
    assert_eq!(s.lexeme, "a\nb");
    assert_eq!(s.literal, Some(Literal::String("a\nb".to_string())));
    assert_eq!(s.line_number, 1);
    assert_eq!(unwrap_token(&tokens[1]).line_number, 1);
}

#[test]
fn invalid_character_is_reported_and_scanning_goes_on() {
    let tokens = scan("1 @ 2");
    assert_eq!(tokens.len(), 4);
    match &tokens[1] {
        PossibleToken::Error(e) => {
            assert_eq!(e.line_number, 0);
            assert_eq!(e.location, "");
            assert_eq!(e.message, "Invalid token at line 0 pos 2: @");
        }
        PossibleToken::Token(t) => panic!("unexpected token {:?}", t),
    }
    assert_eq!(unwrap_token(&tokens[2]).lexeme, "2");
}

#[test]
fn error_positions_are_byte_offsets() {
    let tokens = scan("é @");
    match &tokens[1] {
        PossibleToken::Error(e) => assert_eq!(e.message, "Invalid token at line 0 pos 3: @"),
        PossibleToken::Token(t) => panic!("unexpected token {:?}", t),
    }
}

#[test]
fn newlines_advance_the_line_and_eof_takes_the_last_line() {
    let tokens = scan("1\n2\n");
    assert_eq!(unwrap_token(&tokens[0]).line_number, 0);
    assert_eq!(unwrap_token(&tokens[1]).line_number, 1);
    assert_eq!(unwrap_token(&tokens[2]).line_number, 2);
    assert_eq!(unwrap_token(&tokens[2]).lexeme, "");
}

#[test]
fn number_ending_with_point_keeps_the_point() {
    let tokens = scan("7.");
    let n = unwrap_token(&tokens[0]);
    assert_eq!(n.lexeme, "7.");
    assert_eq!(n.literal, Some(Literal::Number(7.0f64.to_bits())));
}

#[test]
fn crlf_between_tokens_is_one_newline() {
    let tokens = scan("1\r\n2");
    assert_eq!(tokens.len(), 3);
    let one = unwrap_token(&tokens[0]);
    let two = unwrap_token(&tokens[1]);
    let eof = unwrap_token(&tokens[2]);
    assert_eq!((one.lexeme.as_str(), one.line_number), ("1", 0));
    assert_eq!(one.literal, Some(Literal::Number(1.0f64.to_bits())));
    assert_eq!((two.lexeme.as_str(), two.line_number), ("2", 1));
    assert_eq!(two.literal, Some(Literal::Number(2.0f64.to_bits())));
    assert_eq!((eof.token_type, eof.line_number), (TokenType::Eof, 1));
}

#[test]
fn crlf_inside_a_string_advances_the_line() {
    let tokens = scan("\"a\r\nb\" 1");
    let s = unwrap_token(&tokens[0]);
    assert_eq!(s.lexeme, "a\r\nb");
    assert_eq!(s.line_number, 1);
    assert_eq!(unwrap_token(&tokens[1]).line_number, 1);
}

#[test]
fn crlf_ends_a_line_comment() {
    let tokens = scan("// note\r\n2");
    assert_eq!(tokens.len(), 2);
    let two = unwrap_token(&tokens[0]);
    assert_eq!((two.lexeme.as_str(), two.line_number), ("2", 1));
    assert_eq!(unwrap_token(&tokens[1]).line_number, 1);
}

#[test]
fn newlines_inside_block_comments_are_counted() {
    let tokens = scan("/*\n*/");
    assert_eq!(tokens.len(), 1);
    assert_eq!(unwrap_token(&tokens[0]).line_number, 1);
    let tokens = scan("/* a\n /* b\r\n */ c */ x");
    assert_eq!(unwrap_token(&tokens[0]).line_number, 2);
}

#[test]
fn eof_line_is_the_number_of_line_feeds() {
    let source = "1 // c\n\"s\nt\" /* \n */ \r\n x\n";
    let tokens = scan(source);
    let last = unwrap_token(tokens.last().unwrap());
    assert_eq!(last.token_type, TokenType::Eof);
    assert_eq!(last.line_number, source.matches('\n').count());
}

#[test]
fn scan_clusters_takes_clusters_directly() {
    let clusters = vec![
        (0usize, "1".to_string()),
        (1, "\r\n".to_string()),
        (3, "@".to_string()),
    ];
    let tokens = Scanner::scan_clusters(&clusters, &Floats);
    assert_eq!(tokens.len(), 3);
    assert_eq!(unwrap_token(&tokens[0]).lexeme, "1");
    match &tokens[1] {
        PossibleToken::Error(e) => assert_eq!(e.message, "Invalid token at line 1 pos 3: @"),
        PossibleToken::Token(t) => panic!("unexpected token {:?}", t),
    }
    assert_eq!(unwrap_token(&tokens[2]).line_number, 1);
}

#[test]
fn unparsable_number_text_is_reported() {
    let tokens = scan("1\u{301}");
    match &tokens[0] {
        PossibleToken::Error(e) => assert_eq!(e.message, "Invalid number at line 0 pos 0"),
        PossibleToken::Token(t) => panic!("unexpected token {:?}", t),
    }
}
