//! Recursive-descent parser over the precedence ladder
//! expression → comma → ternary → equality → comparison → term → factor →
//! unary → primary.
use vstd::prelude::*;
use crate::expression::{Binary, Expression, Grouping, Literal, Ternary, Unary};
use crate::token::{duplicate_value, Literal as TokenLiteral, Token, TokenType};

verus! {

/// Ranks of the grammar rules, from the tightest binding up.
pub const PRIMARY: usize = 0;

pub const UNARY: usize = 1;

pub const FACTOR: usize = 2;

pub const TERM: usize = 3;

pub const COMPARISON: usize = 4;

pub const EQUALITY: usize = 5;

pub const TERNARY: usize = 6;

pub const COMMA: usize = 7;

pub const EXPRESSION: usize = 8;

/// The outcome of parsing a rule at some token: the tree and the position
/// after it, or the index of the offending token and a message.
pub enum Parsed {
    Done(Expression, int),
    Failed(int, Seq<char>),
}

/// Token `p` is the end-of-input marker.
pub open spec fn at_end(ts: Seq<Token>, p: int) -> bool {
    ts[p].token_type == TokenType::Eof
}

/// Token `p` is of kind `kind` and not the end of input.
pub open spec fn check(ts: Seq<Token>, p: int, kind: TokenType) -> bool {
    0 <= p < ts.len() && !at_end(ts, p) && ts[p].token_type == kind
}

/// The binary rules, and the operators each one folds.
pub open spec fn is_binary_rule(rank: nat) -> bool {
    rank == FACTOR || rank == TERM || rank == COMPARISON || rank == EQUALITY || rank == COMMA
}

pub open spec fn operator_of(rank: nat, kind: TokenType) -> bool {
    if rank == FACTOR {
        kind == TokenType::Slash || kind == TokenType::Star
    } else if rank == TERM {
        kind == TokenType::Minus || kind == TokenType::Plus
    } else if rank == COMPARISON {
        kind == TokenType::Greater || kind == TokenType::GreaterEqual || kind == TokenType::Less
            || kind == TokenType::LessEqual
    } else if rank == EQUALITY {
        kind == TokenType::BangEqual || kind == TokenType::EqualEqual
    } else if rank == COMMA {
        kind == TokenType::Comma
    } else {
        false
    }
}

pub open spec fn binary(left: Expression, operator: Token, right: Expression) -> Expression {
    Expression::Binary(Binary { left: Box::new(left), operator, right: Box::new(right) })
}

pub open spec fn literal(value: Option<TokenLiteral>) -> Expression {
    Expression::Literal(Literal { value })
}

pub open spec fn expect_expression() -> Seq<char> {
    "Expect expression."@
}

pub open spec fn expect_paren() -> Seq<char> {
    "Expect ')' after expression."@
}

pub open spec fn expect_colon() -> Seq<char> {
    "Expected ':' after then branch"@
}

/// What rule `rank` parses from token `p`.
pub open spec fn rule(ts: Seq<Token>, rank: nat, p: int) -> Parsed
    decreases ts.len() - p, rank, 1nat,
{
    if p < 0 || p >= ts.len() {
        Parsed::Failed(p, expect_expression())
    } else if rank == PRIMARY {
        primary(ts, p)
    } else if rank == UNARY {
        if check(ts, p, TokenType::Bang) || check(ts, p, TokenType::Minus) {
            match rule(ts, UNARY as nat, p + 1) {
                Parsed::Done(right, q) => Parsed::Done(
                    Expression::Unary(Unary { operator: ts[p], right: Box::new(right) }),
                    q,
                ),
                failed => failed,
            }
        } else {
            rule(ts, PRIMARY as nat, p)
        }
    } else if rank == TERNARY {
        match rule(ts, EQUALITY as nat, p) {
            Parsed::Done(condition, q) => if p <= q && check(ts, q, TokenType::QuestionMark) {
                match rule(ts, EXPRESSION as nat, q + 1) {
                    Parsed::Done(then_branch, q2) => if q < q2 && check(ts, q2, TokenType::Colon) {
                        match rule(ts, EXPRESSION as nat, q2 + 1) {
                            Parsed::Done(else_branch, q3) => Parsed::Done(
                                Expression::Ternary(
                                    Ternary {
                                        condition: Box::new(condition),
                                        then_branch: Box::new(then_branch),
                                        else_branch: Box::new(else_branch),
                                    },
                                ),
                                q3,
                            ),
                            failed => failed,
                        }
                    } else {
                        Parsed::Failed(q2, expect_colon())
                    },
                    failed => failed,
                }
            } else {
                Parsed::Done(condition, q)
            },
            failed => failed,
        }
    } else if rank == EXPRESSION {
        rule(ts, COMMA as nat, p)
    } else if is_binary_rule(rank) {
        match rule(ts, (rank - 1) as nat, p) {
            Parsed::Done(left, q) => if p <= q < ts.len() {
                rest(ts, rank, left, q)
            } else {
                Parsed::Done(left, q)
            },
            failed => failed,
        }
    } else {
        Parsed::Failed(p, expect_expression())
    }
}

/// The left-associative tail of binary rule `rank`, with `left` parsed so
/// far and token `p` next.
pub open spec fn rest(ts: Seq<Token>, rank: nat, left: Expression, p: int) -> Parsed
    decreases ts.len() - p, rank, 0nat,
{
    if 0 <= p < ts.len() && !at_end(ts, p) && operator_of(rank, ts[p].token_type) && rank > 0 {
        match rule(ts, (rank - 1) as nat, p + 1) {
            Parsed::Done(right, q) => if p < q < ts.len() {
                rest(ts, rank, binary(left, ts[p], right), q)
            } else {
                Parsed::Done(binary(left, ts[p], right), q)
            },
            failed => failed,
        }
    } else {
        Parsed::Done(left, p)
    }
}

/// A literal, or a parenthesised expression.
pub open spec fn primary(ts: Seq<Token>, p: int) -> Parsed
    decreases ts.len() - p, 0nat, 0nat,
{
    if p < 0 || p >= ts.len() {
        Parsed::Failed(p, expect_expression())
    } else {
        let t = ts[p];
        let next = if at_end(ts, p) {
            p
        } else {
            p + 1
        };
        if t.token_type == TokenType::False {
            Parsed::Done(literal(Some(TokenLiteral::Boolean(false))), next)
        } else if t.token_type == TokenType::True {
            Parsed::Done(literal(Some(TokenLiteral::Boolean(true))), next)
        } else if t.token_type == TokenType::Nil {
            Parsed::Done(literal(None), next)
        } else if t.token_type == TokenType::Number {
            match t.literal {
                Some(TokenLiteral::Number(v)) => Parsed::Done(
                    literal(Some(TokenLiteral::Number(v))),
                    next,
                ),
                _ => Parsed::Failed(p, expect_expression()),
            }
        } else if t.token_type == TokenType::String {
            Parsed::Done(literal(Some(TokenLiteral::String(t.lexeme))), next)
        } else if t.token_type == TokenType::LeftParen {
            match rule(ts, EXPRESSION as nat, p + 1) {
                Parsed::Done(inner, q) => if check(ts, q, TokenType::RightParen) {
                    Parsed::Done(Expression::Grouping(Grouping { expression: Box::new(inner) }), q + 1)
                } else {
                    Parsed::Failed(q, expect_paren())
                },
                failed => failed,
            }
        } else {
            Parsed::Failed(p, expect_expression())
        }
    }
}

/// A number token followed by the end of input parses to the literal of
/// the token's value, whatever that value is.
pub proof fn number_token_parses_to_its_value(number: Token, eof: Token, v: u64)
    requires
        number.token_type == TokenType::Number,
        number.literal == Some(TokenLiteral::Number(v)),
        eof.token_type == TokenType::Eof,
    ensures
        parse_tokens(seq![number, eof]) == Parsed::Done(literal(Some(TokenLiteral::Number(v))), 1),
{
    let ts = seq![number, eof];
    let e = literal(Some(TokenLiteral::Number(v)));
    assert(primary(ts, 0) == Parsed::Done(e, 1));
    assert(rule(ts, PRIMARY as nat, 0) == Parsed::Done(e, 1));
    assert(rule(ts, UNARY as nat, 0) == Parsed::Done(e, 1));
    assert(rest(ts, FACTOR as nat, e, 1) == Parsed::Done(e, 1));
    assert(rule(ts, FACTOR as nat, 0) == Parsed::Done(e, 1));
    assert(rest(ts, TERM as nat, e, 1) == Parsed::Done(e, 1));
    assert(rule(ts, TERM as nat, 0) == Parsed::Done(e, 1));
    assert(rest(ts, COMPARISON as nat, e, 1) == Parsed::Done(e, 1));
    assert(rule(ts, COMPARISON as nat, 0) == Parsed::Done(e, 1));
    assert(rest(ts, EQUALITY as nat, e, 1) == Parsed::Done(e, 1));
    assert(rule(ts, EQUALITY as nat, 0) == Parsed::Done(e, 1));
    assert(rule(ts, TERNARY as nat, 0) == Parsed::Done(e, 1));
    assert(rest(ts, COMMA as nat, e, 1) == Parsed::Done(e, 1));
    assert(rule(ts, COMMA as nat, 0) == Parsed::Done(e, 1));
}

/// A token list that the parser can walk: it ends with the end-of-input marker.
pub open spec fn well_formed(ts: Seq<Token>) -> bool {
    ts.len() > 0 && ts.last().token_type == TokenType::Eof
}

/// The outcome of parsing a whole token list.
pub open spec fn parse_tokens(ts: Seq<Token>) -> Parsed {
    rule(ts, EXPRESSION as nat, 0)
}

/// A parse error: the offending token and a message.
#[derive(Debug)]
pub struct ParseError {
    pub token: Token,
    pub message: String,
}

/// Whether `r` is the outcome `parsed` over the tokens `ts`.
pub open spec fn reports(r: Result<Expression, ParseError>, ts: Seq<Token>, parsed: Parsed) -> bool {
    match parsed {
        Parsed::Done(e, _) => r == Ok::<Expression, ParseError>(e),
        Parsed::Failed(k, message) => match r {
            Err(err) => 0 <= k < ts.len() && err.token == ts[k] && err.message@ == message,
            Ok(_) => false,
        },
    }
}

/// `r` is the outcome `parsed` of a rule run from position `p`, and the
/// parser now stands at `q`: after the tree where one was parsed.
pub open spec fn outcome(
    ts: Seq<Token>,
    p: int,
    q: int,
    r: Result<Expression, ParseError>,
    parsed: Parsed,
) -> bool {
    &&& reports(r, ts, parsed)
    &&& match parsed {
        Parsed::Done(_, end) => q == end && p <= end,
        Parsed::Failed(_, _) => true,
    }
}

fn is_operator(rank: usize, kind: TokenType) -> (r: bool)
    ensures
        r == operator_of(rank as nat, kind),
{
    if rank == FACTOR {
        kind == TokenType::Slash || kind == TokenType::Star
    } else if rank == TERM {
        kind == TokenType::Minus || kind == TokenType::Plus
    } else if rank == COMPARISON {
        kind == TokenType::Greater || kind == TokenType::GreaterEqual || kind == TokenType::Less
            || kind == TokenType::LessEqual
    } else if rank == EQUALITY {
        kind == TokenType::BangEqual || kind == TokenType::EqualEqual
    } else if rank == COMMA {
        kind == TokenType::Comma
    } else {
        false
    }
}

/// Parser state: the tokens and the position of the next one.
pub struct Parser {
    tokens: Vec<Token>,
    current: usize,
}

impl Parser {
    /// The tokens being parsed.
    pub closed spec fn token_list(&self) -> Seq<Token> {
        self.tokens@
    }

    /// The position of the next token.
    pub closed spec fn position(&self) -> int {
        self.current as int
    }

    pub open spec fn wf(&self) -> bool {
        well_formed(self.token_list()) && 0 <= self.position() < self.token_list().len()
    }

    /// A parser at the start of `tokens`, which must end with the
    /// end-of-input marker.
    pub fn new(tokens: Vec<Token>) -> (r: Parser)
        requires
            well_formed(tokens@),
        ensures
            r.wf(),
            r.token_list() == tokens@,
            r.position() == 0,
    {
        Parser { tokens, current: 0 }
    }

    /// Parses one expression from the current position; the first error
    /// ends the parse.
    pub fn parse(&mut self) -> (r: Result<Expression, ParseError>)
        requires
            old(self).wf(),
        ensures
            final(self).wf(),
            final(self).token_list() == old(self).token_list(),
            outcome(
                old(self).token_list(),
                old(self).position(),
                final(self).position(),
                r,
                rule(old(self).token_list(), EXPRESSION as nat, old(self).position()),
            ),
    {
        self.expression()
    }

    fn peek(&self) -> (r: &Token)
        requires
            self.wf(),
        ensures
            *r == self.token_list()[self.position()],
    {
        &self.tokens[self.current]
    }

    fn get_previous(&self) -> (r: &Token)
        requires
            self.wf(),
            self.position() > 0,
        ensures
            *r == self.token_list()[self.position() - 1],
    {
        &self.tokens[self.current - 1]
    }

    fn is_at_end(&self) -> (r: bool)
        requires
            self.wf(),
        ensures
            r == at_end(self.token_list(), self.position()),
    {
        self.peek().token_type == TokenType::Eof
    }

    fn check_next(&self, kind: TokenType) -> (r: bool)
        requires
            self.wf(),
        ensures
            r == check(self.token_list(), self.position(), kind),
    {
        if self.is_at_end() {
            return false;
        }
        self.peek().token_type == kind
    }

    /// Moves past the next token, unless it is the end of input.
    fn advance(&mut self)
        requires
            old(self).wf(),
        ensures
            final(self).wf(),
            final(self).token_list() == old(self).token_list(),
            final(self).position() == if at_end(old(self).token_list(), old(self).position()) {
                old(self).position()
            } else {
                old(self).position() + 1
            },
    {
        if !self.is_at_end() {
            proof {
                if self.current + 1 == self.tokens.len() {
                    assert(self.tokens@.last() == self.tokens@[self.current as int]);
                }
            }
            self.current += 1;
        }
    }

    /// Moves past the next token where it is an operator of binary rule `rank`.
    fn next_matches(&mut self, rank: usize) -> (r: bool)
        requires
            old(self).wf(),
        ensures
            final(self).wf(),
            final(self).token_list() == old(self).token_list(),
            r == (!at_end(old(self).token_list(), old(self).position()) && operator_of(
                rank as nat,
                old(self).token_list()[old(self).position()].token_type,
            )),
            final(self).position() == if r {
                old(self).position() + 1
            } else {
                old(self).position()
            },
    {
        if !self.is_at_end() && is_operator(rank, self.peek().token_type) {
            self.advance();
            true
        } else {
            false
        }
    }

    /// Moves past the next token where it has kind `kind`; otherwise fails
    /// with `message` at that token.
    fn consume(&mut self, kind: TokenType, message: &str) -> (r: Result<(), ParseError>)
        requires
            old(self).wf(),
        ensures
            final(self).wf(),
            final(self).token_list() == old(self).token_list(),
            check(old(self).token_list(), old(self).position(), kind) ==> r is Ok
                && final(self).position() == old(self).position() + 1,
            !check(old(self).token_list(), old(self).position(), kind) ==> match r {
                Err(err) => err.token == old(self).token_list()[old(self).position()]
                    && err.message@ == message@,
                Ok(_) => false,
            },
    {
        if self.check_next(kind) {
            self.advance();
            Ok(())
        } else {
            Err(ParseError { token: self.peek().duplicate(), message: String::from_str(message) })
        }
    }

    fn expression(&mut self) -> (r: Result<Expression, ParseError>)
        requires
            old(self).wf(),
        ensures
            final(self).wf(),
            final(self).token_list() == old(self).token_list(),
            outcome(
                old(self).token_list(),
                old(self).position(),
                final(self).position(),
                r,
                rule(old(self).token_list(), EXPRESSION as nat, old(self).position()),
            ),
        decreases self.token_list().len() - self.position(), EXPRESSION, 2nat,
    {
        self.comma()
    }

    fn comma(&mut self) -> (r: Result<Expression, ParseError>)
        requires
            old(self).wf(),
        ensures
            final(self).wf(),
            final(self).token_list() == old(self).token_list(),
            outcome(
                old(self).token_list(),
                old(self).position(),
                final(self).position(),
                r,
                rule(old(self).token_list(), COMMA as nat, old(self).position()),
            ),
        decreases self.token_list().len() - self.position(), COMMA, 2nat,
    {
        self.create_left_associative_binary_expression(COMMA)
    }

    fn ternary(&mut self) -> (r: Result<Expression, ParseError>)
        requires
            old(self).wf(),
        ensures
            final(self).wf(),
            final(self).token_list() == old(self).token_list(),
            outcome(
                old(self).token_list(),
                old(self).position(),
                final(self).position(),
                r,
                rule(old(self).token_list(), TERNARY as nat, old(self).position()),
            ),
        decreases self.token_list().len() - self.position(), TERNARY, 2nat,
    {
        let condition = match self.equality() {
            Ok(e) => e,
            Err(e) => return Err(e),
        };
        if !self.check_next(TokenType::QuestionMark) {
            return Ok(condition);
        }
        self.advance();
        let then_branch = match self.expression() {
            Ok(e) => e,
            Err(e) => return Err(e),
        };
        match self.consume(TokenType::Colon, "Expected ':' after then branch") {
            Ok(()) => {},
            Err(e) => return Err(e),
        }
        let else_branch = match self.expression() {
            Ok(e) => e,
            Err(e) => return Err(e),
        };
        Ok(
            Expression::Ternary(
                Ternary {
                    condition: Box::new(condition),
                    then_branch: Box::new(then_branch),
                    else_branch: Box::new(else_branch),
                },
            ),
        )
    }

    fn equality(&mut self) -> (r: Result<Expression, ParseError>)
        requires
            old(self).wf(),
        ensures
            final(self).wf(),
            final(self).token_list() == old(self).token_list(),
            outcome(
                old(self).token_list(),
                old(self).position(),
                final(self).position(),
                r,
                rule(old(self).token_list(), EQUALITY as nat, old(self).position()),
            ),
        decreases self.token_list().len() - self.position(), EQUALITY, 2nat,
    {
        self.create_left_associative_binary_expression(EQUALITY)
    }

    fn comparison(&mut self) -> (r: Result<Expression, ParseError>)
        requires
            old(self).wf(),
        ensures
            final(self).wf(),
            final(self).token_list() == old(self).token_list(),
            outcome(
                old(self).token_list(),
                old(self).position(),
                final(self).position(),
                r,
                rule(old(self).token_list(), COMPARISON as nat, old(self).position()),
            ),
        decreases self.token_list().len() - self.position(), COMPARISON, 2nat,
    {
        self.create_left_associative_binary_expression(COMPARISON)
    }

    fn term(&mut self) -> (r: Result<Expression, ParseError>)
        requires
            old(self).wf(),
        ensures
            final(self).wf(),
            final(self).token_list() == old(self).token_list(),
            outcome(
                old(self).token_list(),
                old(self).position(),
                final(self).position(),
                r,
                rule(old(self).token_list(), TERM as nat, old(self).position()),
            ),
        decreases self.token_list().len() - self.position(), TERM, 2nat,
    {
        self.create_left_associative_binary_expression(TERM)
    }

    fn factor(&mut self) -> (r: Result<Expression, ParseError>)
        requires
            old(self).wf(),
        ensures
            final(self).wf(),
            final(self).token_list() == old(self).token_list(),
            outcome(
                old(self).token_list(),
                old(self).position(),
                final(self).position(),
                r,
                rule(old(self).token_list(), FACTOR as nat, old(self).position()),
            ),
        decreases self.token_list().len() - self.position(), FACTOR, 2nat,
    {
        self.create_left_associative_binary_expression(FACTOR)
    }

    /// Runs the rule of rank `rank`.
    fn operand(&mut self, rank: usize) -> (r: Result<Expression, ParseError>)
        requires
            old(self).wf(),
            rank < COMMA,
        ensures
            final(self).wf(),
            final(self).token_list() == old(self).token_list(),
            outcome(
                old(self).token_list(),
                old(self).position(),
                final(self).position(),
                r,
                rule(old(self).token_list(), rank as nat, old(self).position()),
            ),
        decreases self.token_list().len() - self.position(), rank, 3nat,
    {
        if rank == PRIMARY {
            self.primary()
        } else if rank == UNARY {
            self.unary()
        } else if rank == FACTOR {
            self.factor()
        } else if rank == TERM {
            self.term()
        } else if rank == COMPARISON {
            self.comparison()
        } else if rank == EQUALITY {
            self.equality()
        } else {
            self.ternary()
        }
    }

    /// Binary rule `rank`: operands of the next rule down, folded to the left.
    fn create_left_associative_binary_expression(&mut self, rank: usize) -> (r: Result<
        Expression,
        ParseError,
    >)
        requires
            old(self).wf(),
            is_binary_rule(rank as nat),
        ensures
            final(self).wf(),
            final(self).token_list() == old(self).token_list(),
            outcome(
                old(self).token_list(),
                old(self).position(),
                final(self).position(),
                r,
                rule(old(self).token_list(), rank as nat, old(self).position()),
            ),
        decreases self.token_list().len() - self.position(), rank, 1nat,
    {
        let ghost ts = self.token_list();
        let ghost p = self.position();
        let mut expr = match self.operand(rank - 1) {
            Ok(e) => e,
            Err(e) => return Err(e),
        };
        loop
            invariant
                self.wf(),
                self.token_list() == ts,
                ts == old(self).token_list(),
                p == old(self).position(),
                p <= self.position(),
                is_binary_rule(rank as nat),
                rule(ts, rank as nat, p) == rest(ts, rank as nat, expr, self.position()),
            decreases ts.len() - self.position(),
        {
            if !self.next_matches(rank) {
                return Ok(expr);
            }
            let operator = self.get_previous().duplicate();
            let right = match self.operand(rank - 1) {
                Ok(e) => e,
                Err(e) => return Err(e),
            };
            expr = Expression::Binary(Binary { left: Box::new(expr), operator, right: Box::new(right) });
        }
    }

    fn unary(&mut self) -> (r: Result<Expression, ParseError>)
        requires
            old(self).wf(),
        ensures
            final(self).wf(),
            final(self).token_list() == old(self).token_list(),
            outcome(
                old(self).token_list(),
                old(self).position(),
                final(self).position(),
                r,
                rule(old(self).token_list(), UNARY as nat, old(self).position()),
            ),
        decreases self.token_list().len() - self.position(), UNARY, 2nat,
    {
        if self.check_next(TokenType::Bang) || self.check_next(TokenType::Minus) {
            self.advance();
            let operator = self.get_previous().duplicate();
            let right = match self.unary() {
                Ok(e) => e,
                Err(e) => return Err(e),
            };
            Ok(Expression::Unary(Unary { operator, right: Box::new(right) }))
        } else {
            self.primary()
        }
    }

    fn primary(&mut self) -> (r: Result<Expression, ParseError>)
        requires
            old(self).wf(),
        ensures
            final(self).wf(),
            final(self).token_list() == old(self).token_list(),
            outcome(
                old(self).token_list(),
                old(self).position(),
                final(self).position(),
                r,
                rule(old(self).token_list(), PRIMARY as nat, old(self).position()),
            ),
        decreases self.token_list().len() - self.position(), PRIMARY, 2nat,
    {
        let ghost ts = self.token_list();
        let ghost p = self.position();
        assert(rule(ts, PRIMARY as nat, p) == primary(ts, p));
        let kind = self.peek().token_type;
        if kind == TokenType::False {
            self.advance();
            Ok(Expression::Literal(Literal { value: Some(TokenLiteral::Boolean(false)) }))
        } else if kind == TokenType::True {
            self.advance();
            Ok(Expression::Literal(Literal { value: Some(TokenLiteral::Boolean(true)) }))
        } else if kind == TokenType::Nil {
            self.advance();
            Ok(Expression::Literal(Literal { value: None }))
        } else if kind == TokenType::Number {
            match duplicate_value(&self.peek().literal) {
                Some(TokenLiteral::Number(v)) => {
                    self.advance();
                    Ok(Expression::Literal(Literal { value: Some(TokenLiteral::Number(v)) }))
                },
                _ => Err(
                    ParseError {
                        token: self.peek().duplicate(),
                        message: String::from_str("Expect expression."),
                    },
                ),
            }
        } else if kind == TokenType::String {
            let text = self.peek().lexeme.clone();
            self.advance();
            Ok(Expression::Literal(Literal { value: Some(TokenLiteral::String(text)) }))
        } else if kind == TokenType::LeftParen {
            self.advance();
            let inner = match self.expression() {
                Ok(e) => e,
                Err(e) => return Err(e),
            };
            match self.consume(TokenType::RightParen, "Expect ')' after expression.") {
                Ok(()) => {},
                Err(e) => return Err(e),
            }
            Ok(Expression::Grouping(Grouping { expression: Box::new(inner) }))
        } else {
            Err(
                ParseError {
                    token: self.peek().duplicate(),
                    message: String::from_str("Expect expression."),
                },
            )
        }
    }

    /// Skips to the next statement boundary (kept for a statement grammar;
    /// the expression grammar does not recover from errors): moves past
    /// one token, then on until just after a `;`, before a keyword that
    /// starts a statement, or to the end of input.
    #[allow(dead_code)]
    fn syncronise(&mut self)
        requires
            old(self).wf(),
        ensures
            final(self).wf(),
            final(self).token_list() == old(self).token_list(),
            old(self).position() <= final(self).position(),
            boundary(final(self).token_list(), final(self).position()),
            forall|k: int|
                old(self).position() < k < final(self).position() ==> !boundary(
                    final(self).token_list(),
                    k,
                ),
    {
        let ghost start = self.position();
        self.advance();
        while !self.is_at_end()
            invariant
                self.wf(),
                self.token_list() == old(self).token_list(),
                start == old(self).position(),
                start <= self.position(),
                start < self.position() || at_end(self.token_list(), self.position()),
                forall|k: int| start < k < self.position() ==> !boundary(self.token_list(), k),
            decreases self.token_list().len() - self.position(),
        {
            if self.get_previous().token_type == TokenType::Semicolon {
                return;
            }
            if starts_statement(self.peek().token_type) {
                return;
            }
            self.advance();
        }
    }
}

/// A keyword that begins a statement.
pub open spec fn statement_keyword(kind: TokenType) -> bool {
    kind == TokenType::Class || kind == TokenType::Fun || kind == TokenType::Var || kind
        == TokenType::For || kind == TokenType::If || kind == TokenType::While || kind
        == TokenType::Print || kind == TokenType::Return
}

/// Position `p` is where recovery stops: the end of input, just after a
/// `;`, or before a statement keyword.
pub open spec fn boundary(ts: Seq<Token>, p: int) -> bool {
    at_end(ts, p) || (p > 0 && ts[p - 1].token_type == TokenType::Semicolon) || statement_keyword(
        ts[p].token_type,
    )
}

fn starts_statement(kind: TokenType) -> (r: bool)
    ensures
        r == statement_keyword(kind),
{
    kind == TokenType::Class || kind == TokenType::Fun || kind == TokenType::Var || kind
        == TokenType::For || kind == TokenType::If || kind == TokenType::While || kind
        == TokenType::Print || kind == TokenType::Return
}

} // verus!
