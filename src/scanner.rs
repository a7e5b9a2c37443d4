//! The scanner: source text to tokens and lexical errors, one grapheme
//! cluster at a time.
use vstd::prelude::*;
use vstd::utf8::encode_utf8;
use unicode_segmentation::UnicodeSegmentation;
use crate::error_report::LoxErrorReport;
use crate::numbers::Numbers;
use crate::text::{decimal, push_decimal};
use crate::token::{keyword, keyword_of, Literal, Token, TokenType};

verus! {

/// The grapheme clusters (extended) of a text, in order.
pub uninterp spec fn graphemes_of(s: Seq<char>) -> Seq<Seq<char>>;

/// Relies on char::is_alphabetic.
pub uninterp spec fn alphabetic(c: char) -> bool;

/// Relies on char::is_alphanumeric.
pub uninterp spec fn alphanumeric(c: char) -> bool;

/// The characters of clusters `a` up to (not including) `b`, in order.
pub open spec fn joined(gs: Seq<Seq<char>>, a: int, b: int) -> Seq<char>
    decreases b - a,
{
    if b <= a {
        Seq::empty()
    } else {
        joined(gs, a, b - 1) + gs[b - 1]
    }
}

/// The byte offset in UTF-8 at which cluster `i` starts.
pub open spec fn byte_offset(gs: Seq<Seq<char>>, i: int) -> nat {
    encode_utf8(joined(gs, 0, i)).len()
}

/// The cluster texts of an indexed cluster list.
pub open spec fn clusters(v: Seq<(usize, String)>) -> Seq<Seq<char>> {
    v.map_values(|p: (usize, String)| p.1@)
}

/// Relies on UnicodeSegmentation::grapheme_indices (extended clusters): the
/// clusters of `s` in order, each non-empty and spelling `s` together, each
/// with the byte offset at which it starts.
#[verifier::external_body]
fn grapheme_indices(s: &str) -> (r: Vec<(usize, String)>)
    ensures
        clusters(r@) == graphemes_of(s@),
        forall|i: int| 0 <= i < r@.len() ==> r@[i].0 == byte_offset(clusters(r@), i),
        forall|i: int| 0 <= i < r@.len() ==> (#[trigger] r@[i]).1@.len() > 0,
        joined(clusters(r@), 0, r@.len() as int) == s@,
{
    UnicodeSegmentation::grapheme_indices(s, true).map(|(i, g)| (i, g.to_string())).collect()
}

/// Relies on char::is_alphabetic (the Unicode Alphabetic property).
#[verifier::external_body]
fn char_is_alphabetic(c: char) -> (r: bool)
    ensures
        r == alphabetic(c),
{
    c.is_alphabetic()
}

/// Relies on char::is_alphanumeric (Alphabetic or Numeric).
#[verifier::external_body]
fn char_is_alphanumeric(c: char) -> (r: bool)
    ensures
        r == alphanumeric(c),
{
    c.is_alphanumeric()
}

/// A cluster that is a digit: its first character is `0` to `9`.
pub open spec fn digit_start(g: Seq<char>) -> bool {
    g.len() > 0 && '0' <= g[0] && g[0] <= '9'
}

/// A cluster that may start an identifier: alphabetic first character, or `_`.
pub open spec fn alpha_start(g: Seq<char>) -> bool {
    g.len() > 0 && (alphabetic(g[0]) || g[0] == '_')
}

/// A cluster that may continue an identifier: alphanumeric first character, or `_`.
pub open spec fn alnum_start(g: Seq<char>) -> bool {
    g.len() > 0 && (alphanumeric(g[0]) || g[0] == '_')
}

/// Whether the grapheme's first character is a decimal digit.
pub fn is_digit(g: &str) -> (r: bool)
    ensures
        r == digit_start(g@),
{
    if g.unicode_len() == 0 {
        return false;
    }
    let c = g.get_char(0);
    '0' <= c && c <= '9'
}

/// Whether the grapheme's first character is alphabetic or an underscore.
pub fn is_alpha(g: &str) -> (r: bool)
    ensures
        r == alpha_start(g@),
{
    if g.unicode_len() == 0 {
        return false;
    }
    let c = g.get_char(0);
    char_is_alphabetic(c) || c == '_'
}

/// Whether the grapheme's first character is alphanumeric or an underscore.
pub fn is_alphanumeric(g: &str) -> (r: bool)
    ensures
        r == alnum_start(g@),
{
    if g.unicode_len() == 0 {
        return false;
    }
    let c = g.get_char(0);
    char_is_alphanumeric(c) || c == '_'
}

/// The character of a cluster made of exactly one character.
pub open spec fn single(g: Seq<char>) -> Option<char> {
    if g.len() == 1 {
        Some(g[0])
    } else {
        None
    }
}

/// Cluster `k` exists and is the character `c` alone.
pub open spec fn is_char(gs: Seq<Seq<char>>, k: int, c: char) -> bool {
    0 <= k < gs.len() && single(gs[k]) == Some(c)
}

/// A cluster that ends a line: it ends with a line feed (`\n`, or `\r\n`,
/// which is one cluster).
pub open spec fn ends_line(g: Seq<char>) -> bool {
    g.len() > 0 && g.last() == '\n'
}

/// Cluster `k` exists and ends a line.
pub open spec fn is_line_end(gs: Seq<Seq<char>>, k: int) -> bool {
    0 <= k < gs.len() && ends_line(gs[k])
}

/// Where a line comment whose text starts at `k` ends: at the next cluster
/// that ends a line (not consumed) or at the end of input.
pub open spec fn line_end(gs: Seq<Seq<char>>, k: int) -> int
    decreases gs.len() - k,
{
    if 0 <= k < gs.len() && !is_line_end(gs, k) {
        line_end(gs, k + 1)
    } else {
        k
    }
}

/// Where a block comment ends, scanning from `k` at nesting `depth`: just
/// after the `*/` that brings the depth to zero, or at the end of input.
pub open spec fn comment_end(gs: Seq<Seq<char>>, k: int, depth: nat) -> int
    decreases gs.len() - k,
{
    if k < 0 || k >= gs.len() {
        k
    } else if is_char(gs, k, '*') && is_char(gs, k + 1, '/') {
        if depth <= 1 {
            k + 2
        } else {
            comment_end(gs, k + 2, (depth - 1) as nat)
        }
    } else if is_char(gs, k, '/') && is_char(gs, k + 1, '*') {
        comment_end(gs, k + 2, depth + 1)
    } else {
        comment_end(gs, k + 1, depth)
    }
}

/// The first closing quote at or after `k`, or the end of input.
pub open spec fn string_close(gs: Seq<Seq<char>>, k: int) -> int
    decreases gs.len() - k,
{
    if 0 <= k < gs.len() && !is_char(gs, k, '"') {
        string_close(gs, k + 1)
    } else {
        k
    }
}

/// The number of clusters that end a line among clusters `a` up to `b`.
pub open spec fn newlines(gs: Seq<Seq<char>>, a: int, b: int) -> nat
    decreases b - a,
{
    if b <= a {
        0
    } else {
        newlines(gs, a, b - 1) + if is_line_end(gs, b - 1) {
            1nat
        } else {
            0nat
        }
    }
}

/// Where a number that continues at `k` ends: digits, and one point at most
/// (`dot` says whether it has been seen).
pub open spec fn number_end(gs: Seq<Seq<char>>, k: int, dot: bool) -> int
    decreases gs.len() - k,
{
    if 0 <= k < gs.len() {
        if is_char(gs, k, '.') {
            if dot {
                k
            } else {
                number_end(gs, k + 1, true)
            }
        } else if digit_start(gs[k]) {
            number_end(gs, k + 1, dot)
        } else {
            k
        }
    } else {
        k
    }
}

/// Where an identifier that continues at `k` ends.
pub open spec fn word_end(gs: Seq<Seq<char>>, k: int) -> int
    decreases gs.len() - k,
{
    if 0 <= k < gs.len() && alnum_start(gs[k]) {
        word_end(gs, k + 1)
    } else {
        k
    }
}

/// What the scanner produces, before numbers are converted.
pub enum ScanItem {
    /// A token without payload.
    Plain { kind: TokenType, lexeme: Seq<char>, line: nat },
    /// An identifier or keyword; its payload is an identifier of its text.
    Word { kind: TokenType, text: Seq<char>, line: nat },
    /// A string literal; lexeme and payload are the text between the quotes.
    Text { content: Seq<char>, line: nat },
    /// A number literal starting at byte `pos`.
    Number { lexeme: Seq<char>, line: nat, pos: nat },
    /// A lexical error.
    Error { line: nat, message: Seq<char> },
}

pub open spec fn invalid_token_message(line: nat, pos: nat, g: Seq<char>) -> Seq<char> {
    "Invalid token at line "@ + decimal(line) + " pos "@ + decimal(pos) + ": "@ + g
}

pub open spec fn unterminated_message(line: nat, pos: nat) -> Seq<char> {
    "Unterminated string at line "@ + decimal(line) + " pos "@ + decimal(pos)
}

pub open spec fn invalid_number_message(line: nat, pos: nat) -> Seq<char> {
    "Invalid number at line "@ + decimal(line) + " pos "@ + decimal(pos)
}

/// One cluster that is a token by itself.
pub open spec fn one(gs: Seq<Seq<char>>, i: int, line: nat, kind: TokenType) -> (
    Seq<ScanItem>,
    int,
    nat,
) {
    (seq![ScanItem::Plain { kind, lexeme: gs[i], line }], i + 1, line)
}

/// An operator that takes a following `=` when there is one.
pub open spec fn with_equal(
    gs: Seq<Seq<char>>,
    i: int,
    line: nat,
    long: TokenType,
    short: TokenType,
) -> (Seq<ScanItem>, int, nat) {
    if is_char(gs, i + 1, '=') {
        (seq![ScanItem::Plain { kind: long, lexeme: gs[i] + gs[i + 1], line }], i + 2, line)
    } else {
        one(gs, i, line, short)
    }
}

/// A string literal whose opening quote is cluster `i`.
pub open spec fn string_step(gs: Seq<Seq<char>>, i: int, line: nat) -> (Seq<ScanItem>, int, nat) {
    let close = string_close(gs, i + 1);
    let end_line = line + newlines(gs, i + 1, close);
    if close < gs.len() {
        (seq![ScanItem::Text { content: joined(gs, i + 1, close), line: end_line }], close + 1, end_line)
    } else {
        (
            seq![ScanItem::Error { line, message: unterminated_message(line, byte_offset(gs, i)) }],
            close,
            end_line,
        )
    }
}

/// What the scanner does at cluster `i` on line `line`: the items it adds,
/// the cluster where it goes on, and the line it is then on.
pub open spec fn step(gs: Seq<Seq<char>>, i: int, line: nat) -> (Seq<ScanItem>, int, nat) {
    let g = gs[i];
    let c = single(g);
    if c == Some('(') {
        one(gs, i, line, TokenType::LeftParen)
    } else if c == Some(')') {
        one(gs, i, line, TokenType::RightParen)
    } else if c == Some('{') {
        one(gs, i, line, TokenType::LeftBrace)
    } else if c == Some('}') {
        one(gs, i, line, TokenType::RightBrace)
    } else if c == Some(',') {
        one(gs, i, line, TokenType::Comma)
    } else if c == Some('.') {
        one(gs, i, line, TokenType::Dot)
    } else if c == Some('-') {
        one(gs, i, line, TokenType::Minus)
    } else if c == Some('+') {
        one(gs, i, line, TokenType::Plus)
    } else if c == Some(';') {
        one(gs, i, line, TokenType::Semicolon)
    } else if c == Some('*') {
        one(gs, i, line, TokenType::Star)
    } else if c == Some('?') {
        one(gs, i, line, TokenType::QuestionMark)
    } else if c == Some(':') {
        one(gs, i, line, TokenType::Colon)
    } else if c == Some('!') {
        with_equal(gs, i, line, TokenType::BangEqual, TokenType::Bang)
    } else if c == Some('=') {
        with_equal(gs, i, line, TokenType::EqualEqual, TokenType::Equal)
    } else if c == Some('<') {
        with_equal(gs, i, line, TokenType::LessEqual, TokenType::Less)
    } else if c == Some('>') {
        with_equal(gs, i, line, TokenType::GreaterEqual, TokenType::Greater)
    } else if c == Some('/') {
        if is_char(gs, i + 1, '/') {
            (Seq::empty(), line_end(gs, i + 2), line)
        } else if is_char(gs, i + 1, '*') {
            let end = comment_end(gs, i + 2, 1);
            (Seq::empty(), end, line + newlines(gs, i + 2, end))
        } else {
            one(gs, i, line, TokenType::Slash)
        }
    } else if c == Some(' ') || c == Some('\r') || c == Some('\t') {
        (Seq::empty(), i + 1, line)
    } else if ends_line(g) {
        (Seq::empty(), i + 1, line + 1)
    } else if c == Some('"') {
        string_step(gs, i, line)
    } else if digit_start(g) {
        let end = number_end(gs, i + 1, false);
        (
            seq![ScanItem::Number { lexeme: joined(gs, i, end), line, pos: byte_offset(gs, i) }],
            end,
            line,
        )
    } else if alpha_start(g) {
        let end = word_end(gs, i + 1);
        let text = joined(gs, i, end);
        let kind = match keyword_of(text) {
            Some(k) => k,
            None => TokenType::Identifier,
        };
        (seq![ScanItem::Word { kind, text, line }], end, line)
    } else {
        (
            seq![ScanItem::Error { line, message: invalid_token_message(line, byte_offset(gs, i), g) }],
            i + 1,
            line,
        )
    }
}

/// Everything the scanner produces from cluster `i` on, on line `line`,
/// ending with the end-of-input token.
pub open spec fn scan_from(gs: Seq<Seq<char>>, i: int, line: nat) -> Seq<ScanItem>
    decreases gs.len() - i,
{
    if i < 0 || i >= gs.len() {
        seq![ScanItem::Plain { kind: TokenType::Eof, lexeme: Seq::empty(), line }]
    } else {
        let (items, j, l) = step(gs, i, line);
        if i < j && j <= gs.len() {
            items + scan_from(gs, j, l)
        } else {
            // not reached: every step advances and stays within the input
            items.push(ScanItem::Plain { kind: TokenType::Eof, lexeme: Seq::empty(), line: l })
        }
    }
}

/// A scan ends with the end-of-input token.
pub proof fn lemma_scan_ends_with_eof(gs: Seq<Seq<char>>, i: int, line: nat)
    ensures
        scan_from(gs, i, line).len() > 0,
        scan_from(gs, i, line).last() matches ScanItem::Plain { kind: TokenType::Eof, .. },
    decreases gs.len() - i,
{
    if 0 <= i < gs.len() {
        let (items, j, l) = step(gs, i, line);
        if i < j && j <= gs.len() {
            lemma_scan_ends_with_eof(gs, j, l);
            assert((items + scan_from(gs, j, l)).last() == scan_from(gs, j, l).last());
        }
    }
}

proof fn lemma_no_closing_quote(gs: Seq<Seq<char>>, k: int)
    requires
        0 <= k <= gs.len(),
        forall|m: int| k <= m < gs.len() ==> !is_char(gs, m, '"'),
    ensures
        string_close(gs, k) == gs.len(),
    decreases gs.len() - k,
{
    if k < gs.len() {
        lemma_no_closing_quote(gs, k + 1);
    }
}

/// A string that is never closed gives exactly one lexical error, on the
/// line the string starts on, and no token; scanning then ends, on the line
/// reached at the end of input.
pub proof fn unterminated_string_is_one_error(gs: Seq<Seq<char>>, i: int, line: nat)
    requires
        is_char(gs, i, '"'),
        forall|k: int| i < k < gs.len() ==> !is_char(gs, k, '"'),
    ensures
        scan_from(gs, i, line) == seq![
            ScanItem::Error { line, message: unterminated_message(line, byte_offset(gs, i)) },
            ScanItem::Plain {
                kind: TokenType::Eof,
                lexeme: Seq::empty(),
                line: line + newlines(gs, i + 1, gs.len() as int),
            },
        ],
{
    lemma_no_closing_quote(gs, i + 1);
    let end_line = line + newlines(gs, i + 1, gs.len() as int);
    let items = step(gs, i, line).0;
    assert(scan_from(gs, i, line) == items + scan_from(gs, gs.len() as int, end_line));
    assert(scan_from(gs, i, line) =~= seq![
        ScanItem::Error { line, message: unterminated_message(line, byte_offset(gs, i)) },
        ScanItem::Plain { kind: TokenType::Eof, lexeme: Seq::empty(), line: end_line },
    ]);
}

proof fn lemma_newlines_split(gs: Seq<Seq<char>>, a: int, m: int, b: int)
    requires
        a <= m <= b,
    ensures
        newlines(gs, a, b) == newlines(gs, a, m) + newlines(gs, m, b),
    decreases b - m,
{
    if b > m {
        lemma_newlines_split(gs, a, m, b - 1);
    }
}

proof fn lemma_newlines_one(gs: Seq<Seq<char>>, k: int)
    ensures
        newlines(gs, k, k + 1) == if is_line_end(gs, k) {
            1nat
        } else {
            0nat
        },
{
    assert(newlines(gs, k, k) == 0);
}

proof fn lemma_line_end(gs: Seq<Seq<char>>, k: int)
    requires
        0 <= k <= gs.len(),
    ensures
        k <= line_end(gs, k) <= gs.len(),
        newlines(gs, k, line_end(gs, k)) == 0,
    decreases gs.len() - k,
{
    if k < gs.len() && !is_line_end(gs, k) {
        lemma_newlines_one(gs, k);
        lemma_line_end(gs, k + 1);
        lemma_newlines_split(gs, k, k + 1, line_end(gs, k));
    }
}

proof fn lemma_comment_end(gs: Seq<Seq<char>>, k: int, depth: nat)
    requires
        0 <= k <= gs.len(),
    ensures
        k <= comment_end(gs, k, depth) <= gs.len(),
    decreases gs.len() - k,
{
    if k < gs.len() {
        if is_char(gs, k, '*') && is_char(gs, k + 1, '/') {
            if depth > 1 {
                lemma_comment_end(gs, k + 2, (depth - 1) as nat);
            }
        } else if is_char(gs, k, '/') && is_char(gs, k + 1, '*') {
            lemma_comment_end(gs, k + 2, depth + 1);
        } else {
            lemma_comment_end(gs, k + 1, depth);
        }
    }
}

proof fn lemma_string_close(gs: Seq<Seq<char>>, k: int)
    requires
        0 <= k <= gs.len(),
    ensures
        k <= string_close(gs, k) <= gs.len(),
        string_close(gs, k) < gs.len() ==> is_char(gs, string_close(gs, k), '"'),
    decreases gs.len() - k,
{
    if k < gs.len() && !is_char(gs, k, '"') {
        lemma_string_close(gs, k + 1);
    }
}

/// No cluster that ends a line starts like a digit, a letter or `_`.
pub open spec fn line_ends_stand_apart(gs: Seq<Seq<char>>) -> bool {
    forall|k: int|
        0 <= k < gs.len() && #[trigger] ends_line(gs[k]) ==> !digit_start(gs[k]) && !alnum_start(gs[k])
}

proof fn lemma_number_end(gs: Seq<Seq<char>>, k: int, dot: bool)
    requires
        0 <= k <= gs.len(),
        line_ends_stand_apart(gs),
    ensures
        k <= number_end(gs, k, dot) <= gs.len(),
        newlines(gs, k, number_end(gs, k, dot)) == 0,
    decreases gs.len() - k,
{
    if k < gs.len() {
        if is_char(gs, k, '.') {
            if !dot {
                lemma_newlines_one(gs, k);
                lemma_number_end(gs, k + 1, true);
                lemma_newlines_split(gs, k, k + 1, number_end(gs, k, dot));
            }
        } else if digit_start(gs[k]) {
            lemma_newlines_one(gs, k);
            assert(!ends_line(gs[k]));
            lemma_number_end(gs, k + 1, dot);
            lemma_newlines_split(gs, k, k + 1, number_end(gs, k, dot));
        }
    }
}

proof fn lemma_word_end(gs: Seq<Seq<char>>, k: int)
    requires
        0 <= k <= gs.len(),
        line_ends_stand_apart(gs),
    ensures
        k <= word_end(gs, k) <= gs.len(),
        newlines(gs, k, word_end(gs, k)) == 0,
    decreases gs.len() - k,
{
    if k < gs.len() && alnum_start(gs[k]) {
        assert(!ends_line(gs[k]));
        lemma_newlines_one(gs, k);
        lemma_word_end(gs, k + 1);
        lemma_newlines_split(gs, k, k + 1, word_end(gs, k));
    }
}

/// Each step of the scanner moves forward, and the line it ends on is the
/// line it started on plus the clusters it passed that end a line.
proof fn lemma_step_counts_lines(gs: Seq<Seq<char>>, i: int, line: nat)
    requires
        0 <= i < gs.len(),
        line_ends_stand_apart(gs),
    ensures
        i < step(gs, i, line).1 <= gs.len(),
        step(gs, i, line).2 == line + newlines(gs, i, step(gs, i, line).1),
{
    let g = gs[i];
    let st = step(gs, i, line);
    let j = st.1;
    lemma_newlines_one(gs, i);
    lemma_newlines_one(gs, i + 1);
    if single(g) == Some('"') {
        lemma_string_close(gs, i + 1);
        let close = string_close(gs, i + 1);
        lemma_newlines_split(gs, i, i + 1, close);
        if close < gs.len() {
            lemma_newlines_split(gs, i, close, close + 1);
        }
    } else if single(g) == Some('/') && is_char(gs, i + 1, '/') {
        lemma_line_end(gs, i + 2);
        lemma_newlines_split(gs, i, i + 2, j);
    } else if single(g) == Some('/') && is_char(gs, i + 1, '*') {
        lemma_comment_end(gs, i + 2, 1);
        lemma_newlines_split(gs, i, i + 2, j);
    } else if single(g) == Some('!') || single(g) == Some('=') || single(g) == Some('<') || single(
        g,
    ) == Some('>') {
        lemma_newlines_split(gs, i, i + 1, j);
    } else if !ends_line(g) && digit_start(g) {
        lemma_number_end(gs, i + 1, false);
        lemma_newlines_split(gs, i, i + 1, j);
    } else if !ends_line(g) && alpha_start(g) {
        lemma_word_end(gs, i + 1);
        lemma_newlines_split(gs, i, i + 1, j);
    }
}

/// The end-of-input token stands on the line reached by counting every
/// cluster that ends a line (a line feed, alone or after a carriage
/// return), wherever it is: between tokens, in a string or in a comment.
pub proof fn eof_line_counts_line_ends(gs: Seq<Seq<char>>, i: int, line: nat)
    requires
        0 <= i <= gs.len(),
        line_ends_stand_apart(gs),
    ensures
        scan_from(gs, i, line).last() == (ScanItem::Plain {
            kind: TokenType::Eof,
            lexeme: Seq::empty(),
            line: line + newlines(gs, i, gs.len() as int),
        }),
    decreases gs.len() - i,
{
    if i < gs.len() {
        lemma_step_counts_lines(gs, i, line);
        let (items, j, l) = step(gs, i, line);
        eof_line_counts_line_ends(gs, j, l);
        lemma_newlines_split(gs, i, j, gs.len() as int);
        lemma_scan_ends_with_eof(gs, j, l);
        assert((items + scan_from(gs, j, l)).last() == scan_from(gs, j, l).last());
    }
}

/// A decimal digit alone, or a point alone.
pub open spec fn digit_cluster(g: Seq<char>) -> bool {
    g.len() == 1 && '0' <= g[0] && g[0] <= '9'
}

pub open spec fn point_cluster(g: Seq<char>) -> bool {
    single(g) == Some('.')
}

proof fn lemma_number_run(gs: Seq<Seq<char>>, k: int, dot: bool)
    requires
        0 <= k <= gs.len(),
        forall|m: int| k <= m < gs.len() ==> digit_cluster(gs[m]) || point_cluster(gs[m]),
        forall|m: int| k <= m < gs.len() && point_cluster(#[trigger] gs[m]) ==> !dot,
        forall|m1: int, m2: int|
            k <= m1 < m2 < gs.len() && point_cluster(#[trigger] gs[m1]) ==> !point_cluster(
                #[trigger] gs[m2],
            ),
    ensures
        number_end(gs, k, dot) == gs.len(),
    decreases gs.len() - k,
{
    if k < gs.len() {
        if point_cluster(gs[k]) {
            assert forall|m: int| k + 1 <= m < gs.len() implies !point_cluster(#[trigger] gs[m]) by {
                assert(point_cluster(gs[k]));
            };
            lemma_number_run(gs, k + 1, true);
        } else {
            lemma_number_run(gs, k + 1, dot);
        }
    }
}

/// Digits with at most one point after the first digit scan to one number
/// literal spelling all of them, then the end of input.
pub proof fn digits_scan_to_one_number(gs: Seq<Seq<char>>)
    requires
        gs.len() > 0,
        digit_cluster(gs[0]),
        forall|m: int| 1 <= m < gs.len() ==> digit_cluster(gs[m]) || point_cluster(gs[m]),
        forall|m1: int, m2: int|
            0 <= m1 < m2 < gs.len() && point_cluster(#[trigger] gs[m1]) ==> !point_cluster(
                #[trigger] gs[m2],
            ),
    ensures
        scan_from(gs, 0, 0) == seq![
            ScanItem::Number { lexeme: joined(gs, 0, gs.len() as int), line: 0, pos: 0 },
            ScanItem::Plain { kind: TokenType::Eof, lexeme: Seq::empty(), line: 0 },
        ],
{
    lemma_number_run(gs, 1, false);
    assert(joined(gs, 0, 0) =~= Seq::<char>::empty());
    assert(encode_utf8(Seq::<char>::empty()) =~= Seq::<u8>::empty());
    let items = step(gs, 0, 0).0;
    assert(scan_from(gs, 0, 0) == items + scan_from(gs, gs.len() as int, 0));
    assert(scan_from(gs, 0, 0) =~= seq![
        ScanItem::Number { lexeme: joined(gs, 0, gs.len() as int), line: 0, pos: 0 },
        ScanItem::Plain { kind: TokenType::Eof, lexeme: Seq::empty(), line: 0 },
    ]);
}

/// The scan of a whole source text.
pub open spec fn scan(source: Seq<char>) -> Seq<ScanItem> {
    scan_from(graphemes_of(source), 0, 0)
}

/// A token or a lexical error, in source order.
#[derive(Debug)]
pub enum PossibleToken {
    Token(Token),
    Error(LoxErrorReport),
}

impl Clone for PossibleToken {
    fn clone(&self) -> (r: PossibleToken)
        ensures
            r == *self,
    {
        match self {
            PossibleToken::Token(t) => PossibleToken::Token(t.duplicate()),
            PossibleToken::Error(e) => PossibleToken::Error(e.duplicate()),
        }
    }
}

/// A lexical error with the given line and message and no location.
pub open spec fn is_error(p: PossibleToken, line: nat, message: Seq<char>) -> bool {
    match p {
        PossibleToken::Error(e) => e.line_number == line && e.location@ == Seq::<char>::empty()
            && e.message@ == message,
        _ => false,
    }
}

/// A token of the given kind, lexeme and line.
pub open spec fn is_token(p: PossibleToken, kind: TokenType, lexeme: Seq<char>, line: nat) -> bool {
    match p {
        PossibleToken::Token(t) => t.token_type == kind && t.lexeme@ == lexeme && t.line_number
            == line,
        _ => false,
    }
}

/// The payload of a produced token, where it has one.
pub open spec fn payload(p: PossibleToken) -> Option<Literal> {
    match p {
        PossibleToken::Token(t) => t.literal,
        _ => None,
    }
}

/// Whether a produced token or error is what `item` describes; for a number
/// literal, which of the two it is and its value are `valued` below.
pub open spec fn produced(p: PossibleToken, item: ScanItem) -> bool {
    match item {
        ScanItem::Plain { kind, lexeme, line } => is_token(p, kind, lexeme, line) && payload(p)
            is None,
        ScanItem::Word { kind, text, line } => is_token(p, kind, text, line) && match payload(p) {
            Some(Literal::Identifier(s)) => s@ == text,
            _ => false,
        },
        ScanItem::Text { content, line } => is_token(p, TokenType::String, content, line)
            && match payload(p) {
            Some(Literal::String(s)) => s@ == content,
            _ => false,
        },
        ScanItem::Number { lexeme, line, pos } => (is_token(p, TokenType::Number, lexeme, line)
            && payload(p) matches Some(Literal::Number(_))) || is_error(
            p,
            line,
            invalid_number_message(line, pos),
        ),
        ScanItem::Error { line, message } => is_error(p, line, message),
    }
}

/// A number literal got what the number system reads in its text: a token
/// whose payload is the value of its lexeme, or, where the system reads no
/// value in that text, the invalid-number error.
pub open spec fn valued<N: Numbers>(numbers: N, p: PossibleToken, item: ScanItem) -> bool {
    item matches ScanItem::Number { lexeme, .. } ==> match p {
        PossibleToken::Token(t) => numbers.parsed(t.lexeme) matches Some(v) && t.literal == Some(
            Literal::Number(v),
        ),
        PossibleToken::Error(_) => exists|s: String| s@ == lexeme && #[trigger] numbers.parsed(s) is None,
    }
}

/// Whether a token list is, item by item, what `items` describes.
pub open spec fn produced_all<N: Numbers>(numbers: N, ps: Seq<PossibleToken>, items: Seq<ScanItem>) -> bool {
    &&& ps.len() == items.len()
    &&& forall|k: int| 0 <= k < ps.len() ==> produced(ps[k], items[k])
    &&& forall|k: int| 0 <= k < ps.len() ==> valued(numbers, ps[k], items[k])
}

/// `after` is `before` followed by tokens produced as `items` describes.
pub open spec fn extended(
    before: Seq<PossibleToken>,
    after: Seq<PossibleToken>,
    items: Seq<ScanItem>,
) -> bool {
    &&& after.len() == before.len() + items.len()
    &&& forall|k: int| 0 <= k < before.len() ==> after[k] == before[k]
    &&& forall|k: int| 0 <= k < items.len() ==> produced(after[before.len() + k], items[k])
}

/// Every cluster is paired with the byte offset at which it starts.
pub open spec fn offsets_hold(gs: Seq<(usize, String)>) -> bool {
    forall|i: int| 0 <= i < gs.len() ==> gs[i].0 == byte_offset(clusters(gs), i)
}

fn single_char(g: &String) -> (r: Option<char>)
    ensures
        r == single(g@),
{
    let s = g.as_str();
    if s.unicode_len() == 1 {
        Some(s.get_char(0))
    } else {
        None
    }
}

fn char_at(gs: &Vec<(usize, String)>, k: usize, c: char) -> (r: bool)
    ensures
        r == is_char(clusters(gs@), k as int, c),
{
    if k >= gs.len() {
        return false;
    }
    match single_char(&gs[k].1) {
        Some(x) => x == c,
        None => false,
    }
}

fn ends_line_at(gs: &Vec<(usize, String)>, k: usize) -> (r: bool)
    ensures
        r == is_line_end(clusters(gs@), k as int),
{
    if k >= gs.len() {
        return false;
    }
    let g = gs[k].1.as_str();
    let n = g.unicode_len();
    n > 0 && g.get_char(n - 1) == '\n'
}

fn count_newlines(gs: &Vec<(usize, String)>, a: usize, b: usize) -> (r: usize)
    requires
        a <= b <= gs@.len(),
    ensures
        r == newlines(clusters(gs@), a as int, b as int),
        r <= b - a,
{
    let ghost c = clusters(gs@);
    let mut count: usize = 0;
    let mut k = a;
    while k < b
        invariant
            c == clusters(gs@),
            a <= k <= b <= gs@.len(),
            count == newlines(c, a as int, k as int),
            count <= k - a,
        decreases b - k,
    {
        if ends_line_at(gs, k) {
            count += 1;
        }
        k += 1;
    }
    count
}

fn line_comment_end(gs: &Vec<(usize, String)>, k: usize) -> (r: usize)
    requires
        k <= gs@.len(),
    ensures
        r == line_end(clusters(gs@), k as int),
        k <= r <= gs@.len(),
{
    let ghost c = clusters(gs@);
    let mut j = k;
    while j < gs.len() && !ends_line_at(gs, j)
        invariant
            c == clusters(gs@),
            k <= j <= gs@.len(),
            line_end(c, k as int) == line_end(c, j as int),
        decreases gs@.len() - j,
    {
        j += 1;
    }
    j
}

fn block_comment_end(gs: &Vec<(usize, String)>, k: usize) -> (r: usize)
    requires
        k <= gs@.len(),
    ensures
        r == comment_end(clusters(gs@), k as int, 1),
        k <= r <= gs@.len(),
{
    let ghost c = clusters(gs@);
    let mut j = k;
    let mut depth: usize = 1;
    loop
        invariant
            c == clusters(gs@),
            k <= j <= gs@.len(),
            1 <= depth <= j - k + 1,
            comment_end(c, k as int, 1) == comment_end(c, j as int, depth as nat),
        decreases gs@.len() - j,
    {
        if j >= gs.len() {
            return j;
        }
        if char_at(gs, j, '*') && char_at(gs, j + 1, '/') {
            if depth == 1 {
                return j + 2;
            }
            depth -= 1;
            j += 2;
        } else if char_at(gs, j, '/') && char_at(gs, j + 1, '*') {
            depth += 1;
            j += 2;
        } else {
            j += 1;
        }
    }
}

fn joined_text(gs: &Vec<(usize, String)>, a: usize, b: usize) -> (r: String)
    requires
        a <= b <= gs@.len(),
    ensures
        r@ == joined(clusters(gs@), a as int, b as int),
{
    let ghost c = clusters(gs@);
    let mut out = String::new();
    let mut k = a;
    while k < b
        invariant
            c == clusters(gs@),
            a <= k <= b <= gs@.len(),
            out@ == joined(c, a as int, k as int),
        decreases b - k,
    {
        out.append(gs[k].1.as_str());
        k += 1;
    }
    out
}

fn number_text_end(gs: &Vec<(usize, String)>, k: usize) -> (r: usize)
    requires
        k <= gs@.len(),
    ensures
        r == number_end(clusters(gs@), k as int, false),
        k <= r <= gs@.len(),
{
    let ghost c = clusters(gs@);
    let mut j = k;
    let mut dot = false;
    loop
        invariant
            c == clusters(gs@),
            k <= j <= gs@.len(),
            number_end(c, k as int, false) == number_end(c, j as int, dot),
        decreases gs@.len() - j,
    {
        if j >= gs.len() {
            return j;
        }
        if char_at(gs, j, '.') {
            if dot {
                return j;
            }
            dot = true;
        } else if !is_digit(gs[j].1.as_str()) {
            return j;
        }
        j += 1;
    }
}

fn word_text_end(gs: &Vec<(usize, String)>, k: usize) -> (r: usize)
    requires
        k <= gs@.len(),
    ensures
        r == word_end(clusters(gs@), k as int),
        k <= r <= gs@.len(),
{
    let ghost c = clusters(gs@);
    let mut j = k;
    while j < gs.len() && is_alphanumeric(gs[j].1.as_str())
        invariant
            c == clusters(gs@),
            k <= j <= gs@.len(),
            word_end(c, k as int) == word_end(c, j as int),
        decreases gs@.len() - j,
    {
        j += 1;
    }
    j
}

fn message_at(prefix: &str, line: usize, pos: usize) -> (r: String)
    ensures
        r@ == prefix@ + decimal(line as nat) + " pos "@ + decimal(pos as nat),
{
    let mut out = String::from_str(prefix);
    push_decimal(&mut out, line);
    out.append(" pos ");
    push_decimal(&mut out, pos);
    out
}

/// Scanner state: the current line and what has been produced so far.
pub struct Scanner {
    line_number: usize,
    tokens: Vec<PossibleToken>,
}

impl Scanner {
    fn push_token(&mut self, kind: TokenType, lexeme: String, literal: Option<Literal>)
        ensures
            final(self).tokens@ == old(self).tokens@.push(
                PossibleToken::Token(
                    Token { token_type: kind, lexeme, literal, line_number: old(self).line_number },
                ),
            ),
            final(self).line_number == old(self).line_number,
    {
        let t = Token::new(kind, lexeme, literal, self.line_number);
        self.tokens.push(PossibleToken::Token(t));
    }

    fn push_error(&mut self, line: usize, message: String)
        ensures
            final(self).tokens@.len() == old(self).tokens@.len() + 1,
            forall|k: int| 0 <= k < old(self).tokens@.len() ==> final(self).tokens@[k] == old(self).tokens@[k],
            is_error(final(self).tokens@.last(), line as nat, message@),
            final(self).line_number == old(self).line_number,
    {
        let e = LoxErrorReport::new(line, String::new(), message);
        self.tokens.push(PossibleToken::Error(e));
    }

    fn add_one(&mut self, gs: &Vec<(usize, String)>, i: usize, kind: TokenType)
        requires
            i < gs.len(),
        ensures
            extended(
                old(self).tokens@,
                final(self).tokens@,
                one(clusters(gs@), i as int, old(self).line_number as nat, kind).0,
            ),
            final(self).line_number == old(self).line_number,
    {
        self.push_token(kind, gs[i].1.clone(), None);
    }

    fn add_with_equal(
        &mut self,
        gs: &Vec<(usize, String)>,
        i: usize,
        long: TokenType,
        short: TokenType,
    ) -> (j: usize)
        requires
            i < gs.len(),
        ensures
            ({
                let st = with_equal(clusters(gs@), i as int, old(self).line_number as nat, long, short);
                &&& extended(old(self).tokens@, final(self).tokens@, st.0)
                &&& j == st.1
            }),
            final(self).line_number == old(self).line_number,
    {
        if i + 1 < gs.len() && char_at(gs, i + 1, '=') {
            let lexeme = gs[i].1.clone().concat(gs[i + 1].1.as_str());
            self.push_token(long, lexeme, None);
            i + 2
        } else {
            self.add_one(gs, i, short);
            i + 1
        }
    }

    fn add_string(&mut self, gs: &Vec<(usize, String)>, i: usize) -> (j: usize)
        requires
            i < gs.len(),
            old(self).line_number <= i,
            offsets_hold(gs@),
        ensures
            ({
                let st = string_step(clusters(gs@), i as int, old(self).line_number as nat);
                &&& extended(old(self).tokens@, final(self).tokens@, st.0)
                &&& j == st.1
                &&& final(self).line_number == st.2
            }),
            i < j <= gs@.len(),
            final(self).line_number <= j,
    {
        let ghost c = clusters(gs@);
        let start_line = self.line_number;
        let mut k = i + 1;
        while k < gs.len() && !char_at(gs, k, '"')
            invariant
                c == clusters(gs@),
                i < k <= gs@.len(),
                self.line_number < k,
                self.line_number == start_line + newlines(c, i + 1, k as int),
                string_close(c, i + 1) == string_close(c, k as int),
                self.tokens@ == old(self).tokens@,
            decreases gs@.len() - k,
        {
            if ends_line_at(gs, k) {
                self.line_number += 1;
            }
            k += 1;
        }
        if k < gs.len() {
            let content = joined_text(gs, i + 1, k);
            let payload = Literal::String(content.clone());
            self.push_token(TokenType::String, content, Some(payload));
            k + 1
        } else {
            let message = message_at("Unterminated string at line ", start_line, gs[i].0);
            self.push_error(start_line, message);
            k
        }
    }

    fn add_number<N: Numbers>(&mut self, gs: &Vec<(usize, String)>, i: usize, numbers: &N) -> (j: usize)
        requires
            i < gs.len(),
            offsets_hold(gs@),
        ensures
            ({
                let c = clusters(gs@);
                let end = number_end(c, i + 1, false);
                let item = ScanItem::Number {
                    lexeme: joined(c, i as int, end),
                    line: old(self).line_number as nat,
                    pos: byte_offset(c, i as int),
                };
                &&& extended(old(self).tokens@, final(self).tokens@, seq![item])
                &&& valued(*numbers, final(self).tokens@.last(), item)
                &&& j == end
            }),
            i < j <= gs@.len(),
            final(self).line_number == old(self).line_number,
    {
        let end = number_text_end(gs, i + 1);
        let lexeme = joined_text(gs, i, end);
        let ghost text = lexeme;
        match numbers.parse(&lexeme) {
            Some(value) => {
                self.push_token(TokenType::Number, lexeme, Some(Literal::Number(value)));
            },
            None => {
                let message = message_at("Invalid number at line ", self.line_number, gs[i].0);
                let line = self.line_number;
                self.push_error(line, message);
                assert(text@ == joined(clusters(gs@), i as int, end as int) && numbers.parsed(text) is None);
            },
        }
        end
    }

    fn add_word(&mut self, gs: &Vec<(usize, String)>, i: usize) -> (j: usize)
        requires
            i < gs.len(),
        ensures
            ({
                let c = clusters(gs@);
                let end = word_end(c, i + 1);
                let text = joined(c, i as int, end);
                let kind = match keyword_of(text) {
                    Some(k) => k,
                    None => TokenType::Identifier,
                };
                &&& extended(
                    old(self).tokens@,
                    final(self).tokens@,
                    seq![ScanItem::Word { kind, text, line: old(self).line_number as nat }],
                )
                &&& j == end
            }),
            i < j <= gs@.len(),
            final(self).line_number == old(self).line_number,
    {
        let end = word_text_end(gs, i + 1);
        let text = joined_text(gs, i, end);
        let kind = match keyword(&text) {
            Some(k) => k,
            None => TokenType::Identifier,
        };
        let payload = Literal::Identifier(text.clone());
        self.push_token(kind, text, Some(payload));
        end
    }

    fn add_invalid(&mut self, gs: &Vec<(usize, String)>, i: usize)
        requires
            i < gs.len(),
            offsets_hold(gs@),
        ensures
            extended(
                old(self).tokens@,
                final(self).tokens@,
                seq![
                    ScanItem::Error {
                        line: old(self).line_number as nat,
                        message: invalid_token_message(
                            old(self).line_number as nat,
                            byte_offset(clusters(gs@), i as int),
                            clusters(gs@)[i as int],
                        ),
                    },
                ],
            ),
            final(self).line_number == old(self).line_number,
    {
        let mut message = message_at("Invalid token at line ", self.line_number, gs[i].0);
        message.append(": ");
        message.append(gs[i].1.as_str());
        let line = self.line_number;
        self.push_error(line, message);
    }

    /// Scans from cluster `i`: adds what `step` describes and returns the
    /// cluster where scanning goes on.
    fn scan_one<N: Numbers>(&mut self, gs: &Vec<(usize, String)>, i: usize, numbers: &N) -> (j: usize)
        requires
            i < gs.len(),
            old(self).line_number <= i,
            offsets_hold(gs@),
        ensures
            ({
                let st = step(clusters(gs@), i as int, old(self).line_number as nat);
                &&& extended(old(self).tokens@, final(self).tokens@, st.0)
                &&& forall|k: int|
                    0 <= k < st.0.len() ==> valued(
                        *numbers,
                        final(self).tokens@[old(self).tokens@.len() + k],
                        st.0[k],
                    )
                &&& j == st.1
                &&& final(self).line_number == st.2
            }),
            i < j <= gs@.len(),
            final(self).line_number <= j,
    {
        let (is_single, ch) = match single_char(&gs[i].1) {
            Some(x) => (true, x),
            None => (false, ' '),
        };
        if is_single && ch == '(' {
            self.add_one(gs, i, TokenType::LeftParen);
            i + 1
        } else if is_single && ch == ')' {
            self.add_one(gs, i, TokenType::RightParen);
            i + 1
        } else if is_single && ch == '{' {
            self.add_one(gs, i, TokenType::LeftBrace);
            i + 1
        } else if is_single && ch == '}' {
            self.add_one(gs, i, TokenType::RightBrace);
            i + 1
        } else if is_single && ch == ',' {
            self.add_one(gs, i, TokenType::Comma);
            i + 1
        } else if is_single && ch == '.' {
            self.add_one(gs, i, TokenType::Dot);
            i + 1
        } else if is_single && ch == '-' {
            self.add_one(gs, i, TokenType::Minus);
            i + 1
        } else if is_single && ch == '+' {
            self.add_one(gs, i, TokenType::Plus);
            i + 1
        } else if is_single && ch == ';' {
            self.add_one(gs, i, TokenType::Semicolon);
            i + 1
        } else if is_single && ch == '*' {
            self.add_one(gs, i, TokenType::Star);
            i + 1
        } else if is_single && ch == '?' {
            self.add_one(gs, i, TokenType::QuestionMark);
            i + 1
        } else if is_single && ch == ':' {
            self.add_one(gs, i, TokenType::Colon);
            i + 1
        } else if is_single && ch == '!' {
            self.add_with_equal(gs, i, TokenType::BangEqual, TokenType::Bang)
        } else if is_single && ch == '=' {
            self.add_with_equal(gs, i, TokenType::EqualEqual, TokenType::Equal)
        } else if is_single && ch == '<' {
            self.add_with_equal(gs, i, TokenType::LessEqual, TokenType::Less)
        } else if is_single && ch == '>' {
            self.add_with_equal(gs, i, TokenType::GreaterEqual, TokenType::Greater)
        } else if is_single && ch == '/' {
            if i + 1 < gs.len() && char_at(gs, i + 1, '/') {
                line_comment_end(gs, i + 2)
            } else if i + 1 < gs.len() && char_at(gs, i + 1, '*') {
                let end = block_comment_end(gs, i + 2);
                let count = count_newlines(gs, i + 2, end);
                self.line_number = self.line_number + count;
                end
            } else {
                self.add_one(gs, i, TokenType::Slash);
                i + 1
            }
        } else if is_single && (ch == ' ' || ch == '\r' || ch == '\t') {
            i + 1
        } else if ends_line_at(gs, i) {
            self.line_number += 1;
            i + 1
        } else if is_single && ch == '"' {
            self.add_string(gs, i)
        } else if is_digit(gs[i].1.as_str()) {
            self.add_number(gs, i, numbers)
        } else if is_alpha(gs[i].1.as_str()) {
            self.add_word(gs, i)
        } else {
            self.add_invalid(gs, i);
            i + 1
        }
    }

    /// Scans a source text into tokens and lexical errors, in source order,
    /// ending with the end-of-input token. Number literals get their value
    /// from `numbers`.
    pub fn scan_tokens<N: Numbers>(source: &str, numbers: &N) -> (r: Vec<PossibleToken>)
        ensures
            produced_all(*numbers, r@, scan(source@)),
    {
        let gs = grapheme_indices(source);
        Self::scan_clusters(&gs, numbers)
    }

    /// Scans a list of grapheme clusters, each paired with the byte offset
    /// at which it starts.
    pub fn scan_clusters<N: Numbers>(gs: &Vec<(usize, String)>, numbers: &N) -> (r: Vec<PossibleToken>)
        requires
            offsets_hold(gs@),
        ensures
            produced_all(*numbers, r@, scan_from(clusters(gs@), 0, 0)),
    {
        let ghost c = clusters(gs@);
        let mut scanner = Scanner { line_number: 0, tokens: Vec::new() };
        let ghost mut done: Seq<ScanItem> = Seq::empty();
        let mut i: usize = 0;
        while i < gs.len()
            invariant
                c == clusters(gs@),
                offsets_hold(gs@),
                i <= gs@.len(),
                scanner.line_number <= i,
                produced_all(*numbers, scanner.tokens@, done),
                done + scan_from(c, i as int, scanner.line_number as nat) == scan_from(
                    c,
                    0,
                    0,
                ),
            decreases gs@.len() - i,
        {
            let ghost st = step(c, i as int, scanner.line_number as nat);
            let ghost before = scanner.tokens@;
            let j = scanner.scan_one(gs, i, numbers);
            proof {
                assert(done + st.0 + scan_from(c, j as int, scanner.line_number as nat)
                    == scan_from(c, 0, 0)) by {
                    assert(done + (st.0 + scan_from(c, j as int, st.2)) =~= done + st.0
                        + scan_from(c, j as int, st.2));
                };
                assert forall|k: int| 0 <= k < scanner.tokens@.len() implies produced(
                    scanner.tokens@[k],
                    (done + st.0)[k],
                ) by {
                    if k >= before.len() {
                        assert(scanner.tokens@[before.len() + (k - before.len())] == scanner.tokens@[k]);
                    }
                };
                assert forall|k: int| 0 <= k < scanner.tokens@.len() implies valued(
                    *numbers,
                    scanner.tokens@[k],
                    (done + st.0)[k],
                ) by {
                    if k >= before.len() {
                        assert(scanner.tokens@[before.len() + (k - before.len())] == scanner.tokens@[k]);
                    }
                };
                done = done + st.0;
            }
            i = j;
        }
        let line = scanner.line_number;
        scanner.push_token(TokenType::Eof, String::new(), None);
        proof {
            assert(done + seq![
                ScanItem::Plain { kind: TokenType::Eof, lexeme: Seq::empty(), line: line as nat },
            ] == scan_from(c, 0, 0));
        }
        scanner.tokens
    }
}

} // verus!
