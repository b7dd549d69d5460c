use vstd::prelude::*;

verus! {

/// Where a token or node starts in the source text, how long it is and on which line.
#[derive(Clone, Copy, Debug, PartialEq, Eq, Structural)]
pub struct Span {
    pub start: usize,
    pub len: usize,
    pub line: usize,
}

/// The tag of a lexical token.
#[derive(Clone, Copy, Debug, PartialEq, Eq, Structural)]
pub enum Token {
    Let,
    Const,
    Class,
    Function,
    Print,
    If,
    Else,
    While,
    For,
    Return,
    Super,
    This,
    True,
    False,
    Number,
    Str,
    Identifier,
    LParen,
    RParen,
    LCurly,
    RCurly,
    LBrace,
    RBrace,
    Comma,
    Dot,
    Semicolon,
    Assign,
    PlusEq,
    SubEq,
    ModEq,
    DivEq,
    AndEq,
    OrEq,
    MulEq,
    XorEq,
    LOr,
    LAnd,
    Or,
    And,
    Xor,
    Eq,
    Ne,
    Lt,
    Lte,
    Gt,
    Gte,
    Plus,
    Minus,
    Times,
    Divide,
    Mod,
    Not,
    LShift,
    RShift,
    /// A character that starts no token.
    Unknown,
    Eof,
}

/// A token with its text, its numeric value (for numbers) and its span.
#[derive(Clone, Debug)]
pub struct TokenInfo {
    pub token: Token,
    pub lexeme: String,
    pub value: u64,
    pub span: Span,
}

impl TokenInfo {
    pub fn new(token: Token, lexeme: String, value: u64, span: Span) -> (r: TokenInfo)
        ensures
            r.token == token,
            r.lexeme == lexeme,
            r.value == value,
            r.span == span,
    {
        TokenInfo { token, lexeme, value, span }
    }

    /// The end-of-input sentinel at the given span.
    pub fn eof(span: Span) -> (r: TokenInfo)
        ensures
            r.token == Token::Eof,
            r.span == span,
    {
        TokenInfo { token: Token::Eof, lexeme: String::new(), value: 0, span }
    }

    /// A copy of this token.
    pub fn duplicate(&self) -> (r: TokenInfo)
        ensures
            r == *self,
    {
        TokenInfo { token: self.token, lexeme: self.lexeme.clone(), value: self.value, span: self.span }
    }

    pub fn is(&self, t: Token) -> (r: bool)
        ensures
            r == (self.token == t),
    {
        self.token == t
    }
}

/// Binding strength of an operator token, weakest first.
#[derive(Clone, Copy, Debug, PartialEq, Eq, Structural, PartialOrd, Ord)]
pub enum Precedence {
    Lowest,
    Lower,
    Low,
    Mid,
    High,
    Higher,
    Highest,
}

/// The precedence table of the operator tokens.
pub open spec fn precedence_of(t: Token) -> Precedence {
    match t {
        Token::Eq | Token::Ne => Precedence::Lower,
        Token::Lt | Token::Gt => Precedence::Low,
        Token::Plus | Token::Minus | Token::Not => Precedence::Mid,
        Token::Times | Token::Divide => Precedence::High,
        Token::LParen => Precedence::Higher,
        Token::LBrace => Precedence::Highest,
        _ => Precedence::Lowest,
    }
}

impl Token {
    pub fn get_precedence(&self) -> (r: Precedence)
        ensures
            r == precedence_of(*self),
    {
        match self {
            Token::Eq | Token::Ne => Precedence::Lower,
            Token::Lt | Token::Gt => Precedence::Low,
            Token::Plus | Token::Minus | Token::Not => Precedence::Mid,
            Token::Times | Token::Divide => Precedence::High,
            Token::LParen => Precedence::Higher,
            Token::LBrace => Precedence::Highest,
            _ => Precedence::Lowest,
        }
    }
}

} // verus!
