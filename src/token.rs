//! Tokens: their kinds, literal payloads, and the keyword table.
use vstd::prelude::*;

verus! {

/// The lexical category of a token.
#[derive(PartialEq, Eq, Structural, Clone, Copy, Debug)]
pub enum TokenType {
    // single-character tokens
    LeftParen,
    RightParen,
    LeftBrace,
    RightBrace,
    Comma,
    Dot,
    Minus,
    Plus,
    Semicolon,
    Slash,
    Star,
    QuestionMark,
    Colon,
    // one- or two-character tokens
    Bang,
    BangEqual,
    Equal,
    EqualEqual,
    Greater,
    GreaterEqual,
    Less,
    LessEqual,
    // literals
    Identifier,
    String,
    Number,
    // keywords
    And,
    Class,
    Else,
    False,
    Fun,
    For,
    If,
    Nil,
    Or,
    Print,
    Return,
    Super,
    This,
    True,
    Var,
    While,
    // end of input
    Eof,
}

/// A runtime or literal value. A number is held as the bit pattern of an
/// IEEE-754 binary64 value; absence ("nil") is `None` wherever a literal
/// may stand.
#[derive(Debug, PartialEq)]
pub enum Literal {
    Identifier(String),
    String(String),
    Number(u64),
    Boolean(bool),
}

impl Literal {
    /// A copy of this literal.
    pub fn duplicate(&self) -> (r: Literal)
        ensures
            r == *self,
    {
        match self {
            Literal::Identifier(s) => Literal::Identifier(s.clone()),
            Literal::String(s) => Literal::String(s.clone()),
            Literal::Number(n) => Literal::Number(*n),
            Literal::Boolean(b) => Literal::Boolean(*b),
        }
    }
}

impl Clone for Literal {
    fn clone(&self) -> (r: Literal)
        ensures
            r == *self,
    {
        self.duplicate()
    }
}

/// A copy of an optional literal.
pub fn duplicate_value(v: &Option<Literal>) -> (r: Option<Literal>)
    ensures
        r == *v,
{
    match v {
        Some(l) => Some(l.duplicate()),
        None => None,
    }
}

/// One token: its kind, the source text it stands for, an optional literal
/// payload and the line it was found on.
#[derive(Debug, PartialEq)]
pub struct Token {
    pub token_type: TokenType,
    pub lexeme: String,
    pub literal: Option<Literal>,
    pub line_number: usize,
}

impl Token {
    pub fn new(
        token_type: TokenType,
        lexeme: String,
        literal: Option<Literal>,
        line_number: usize,
    ) -> (r: Token)
        ensures
            r.token_type == token_type,
            r.lexeme == lexeme,
            r.literal == literal,
            r.line_number == line_number,
    {
        Token { token_type, lexeme, literal, line_number }
    }

    /// A copy of this token.
    pub fn duplicate(&self) -> (r: Token)
        ensures
            r == *self,
    {
        Token {
            token_type: self.token_type,
            lexeme: self.lexeme.clone(),
            literal: duplicate_value(&self.literal),
            line_number: self.line_number,
        }
    }
}

impl Clone for Token {
    fn clone(&self) -> (r: Token)
        ensures
            r == *self,
    {
        self.duplicate()
    }
}

/// A lexical error: the line it was found on, a location text and a message.
#[derive(Debug)]
pub struct LoxTokenError {
    pub line_number: usize,
    pub location: String,
    pub message: String,
}

impl LoxTokenError {
    pub fn new(line_number: usize, location: String, message: String) -> (r: LoxTokenError)
        ensures
            r.line_number == line_number,
            r.location == location,
            r.message == message,
    {
        LoxTokenError { line_number, location, message }
    }
}

impl Clone for LoxTokenError {
    fn clone(&self) -> (r: LoxTokenError)
        ensures
            r == *self,
    {
        LoxTokenError {
            line_number: self.line_number,
            location: self.location.clone(),
            message: self.message.clone(),
        }
    }
}

/// The reserved words and the token kind each stands for.
pub open spec fn keyword_of(word: Seq<char>) -> Option<TokenType> {
    if word == "and"@ {
        Some(TokenType::And)
    } else if word == "class"@ {
        Some(TokenType::Class)
    } else if word == "else"@ {
        Some(TokenType::Else)
    } else if word == "false"@ {
        Some(TokenType::False)
    } else if word == "for"@ {
        Some(TokenType::For)
    } else if word == "fun"@ {
        Some(TokenType::Fun)
    } else if word == "if"@ {
        Some(TokenType::If)
    } else if word == "nil"@ {
        Some(TokenType::Nil)
    } else if word == "or"@ {
        Some(TokenType::Or)
    } else if word == "print"@ {
        Some(TokenType::Print)
    } else if word == "return"@ {
        Some(TokenType::Return)
    } else if word == "super"@ {
        Some(TokenType::Super)
    } else if word == "this"@ {
        Some(TokenType::This)
    } else if word == "true"@ {
        Some(TokenType::True)
    } else if word == "var"@ {
        Some(TokenType::Var)
    } else if word == "while"@ {
        Some(TokenType::While)
    } else {
        None
    }
}

fn is_word(word: &String, reserved: &str) -> (r: bool)
    ensures
        r == (word@ == reserved@),
{
    *word == String::from_str(reserved)
}

/// Looks a word up in the keyword table.
pub fn keyword(word: &String) -> (r: Option<TokenType>)
    ensures
        r == keyword_of(word@),
{
    if is_word(word, "and") {
        Some(TokenType::And)
    } else if is_word(word, "class") {
        Some(TokenType::Class)
    } else if is_word(word, "else") {
        Some(TokenType::Else)
    } else if is_word(word, "false") {
        Some(TokenType::False)
    } else if is_word(word, "for") {
        Some(TokenType::For)
    } else if is_word(word, "fun") {
        Some(TokenType::Fun)
    } else if is_word(word, "if") {
        Some(TokenType::If)
    } else if is_word(word, "nil") {
        Some(TokenType::Nil)
    } else if is_word(word, "or") {
        Some(TokenType::Or)
    } else if is_word(word, "print") {
        Some(TokenType::Print)
    } else if is_word(word, "return") {
        Some(TokenType::Return)
    } else if is_word(word, "super") {
        Some(TokenType::Super)
    } else if is_word(word, "this") {
        Some(TokenType::This)
    } else if is_word(word, "true") {
        Some(TokenType::True)
    } else if is_word(word, "var") {
        Some(TokenType::Var)
    } else if is_word(word, "while") {
        Some(TokenType::While)
    } else {
        None
    }
}

} // verus!
