use vstd::prelude::*;
use crate::grammar::end_span;
use crate::token::{Span, Token, TokenInfo};

verus! {

/// A pull-based token source: hands out its tokens in order, then the
/// end-of-input sentinel for ever.
#[derive(Debug)]
pub struct Lexer {
    tokens: Vec<TokenInfo>,
    pos: usize,
}

impl Lexer {
    pub closed spec fn wf(&self) -> bool {
        self.pos <= self.tokens.len()
    }

    /// The tokens this source hands out before the end-of-input sentinel.
    pub closed spec fn tokens(&self) -> Seq<TokenInfo> {
        self.tokens@
    }

    /// How many tokens have been handed out.
    pub closed spec fn pos(&self) -> nat {
        self.pos as nat
    }

    /// A well-formed source has handed out no more tokens than it holds.
    pub proof fn lemma_wf(&self)
        requires
            self.wf(),
        ensures
            self.pos() <= self.tokens().len(),
    {
    }

    /// How many tokens are still to come before the stream is exhausted.
    pub open spec fn remaining(&self) -> nat {
        (self.tokens().len() - self.pos()) as nat
    }

    /// A source that hands out the given tokens.
    pub fn from_tokens(tokens: Vec<TokenInfo>) -> (r: Lexer)
        ensures
            r.wf(),
            r.pos() == 0,
            r.tokens() == tokens@,
    {
        Lexer { tokens, pos: 0 }
    }

    /// Scans source text into tokens.
    pub fn new(source: String) -> (r: Lexer)
        ensures
            r.wf(),
            r.pos() == 0,
    {
        Lexer::from_tokens(scan(source.as_str()))
    }

    /// The next token; once the tokens are used up, the end-of-input sentinel.
    pub fn next(&mut self) -> (r: TokenInfo)
        requires
            old(self).wf(),
        ensures
            final(self).wf(),
            final(self).tokens() == old(self).tokens(),
            old(self).pos() < old(self).tokens().len() ==> final(self).pos() == old(self).pos() + 1
                && r == old(self).tokens()[old(self).pos() as int],
            old(self).pos() >= old(self).tokens().len() ==> final(self).pos() == old(self).pos()
                && r.token == Token::Eof && r.span == end_span(old(self).tokens()),
    {
        if self.pos < self.tokens.len() {
            let t = self.tokens[self.pos].duplicate();
            self.pos = self.pos + 1;
            t
        } else {
            let span = if self.tokens.len() > 0 {
                self.tokens[self.tokens.len() - 1].span
            } else {
                Span { start: 0, len: 0, line: 1 }
            };
            TokenInfo::eof(span)
        }
    }
}

fn word_is(cs: &Vec<char>, a: usize, b: usize, w: &str) -> (r: bool)
    requires
        a <= b <= cs.len(),
    ensures
        r == (cs@.subrange(a as int, b as int) == w@),
{
    let n = w.unicode_len();
    if b - a != n {
        return false;
    }
    let mut j: usize = 0;
    while j < n
        invariant
            a <= b <= cs.len(),
            b - a == n == w@.len(),
            j <= n,
            forall|k: int| 0 <= k < j ==> cs@[a + k] == w@[k],
        decreases n - j,
    {
        if cs[a + j] != w.get_char(j) {
            assert(cs@.subrange(a as int, b as int)[j as int] != w@[j as int]);
            return false;
        }
        j = j + 1;
    }
    assert(cs@.subrange(a as int, b as int) =~= w@);
    true
}

fn keyword(cs: &Vec<char>, a: usize, b: usize) -> Token
    requires
        a <= b <= cs.len(),
{
    if word_is(cs, a, b, "let") {
        Token::Let
    } else if word_is(cs, a, b, "const") {
        Token::Const
    } else if word_is(cs, a, b, "class") {
        Token::Class
    } else if word_is(cs, a, b, "fun") {
        Token::Function
    } else if word_is(cs, a, b, "print") {
        Token::Print
    } else if word_is(cs, a, b, "if") {
        Token::If
    } else if word_is(cs, a, b, "else") {
        Token::Else
    } else if word_is(cs, a, b, "while") {
        Token::While
    } else if word_is(cs, a, b, "for") {
        Token::For
    } else if word_is(cs, a, b, "return") {
        Token::Return
    } else if word_is(cs, a, b, "super") {
        Token::Super
    } else if word_is(cs, a, b, "this") {
        Token::This
    } else if word_is(cs, a, b, "true") {
        Token::True
    } else if word_is(cs, a, b, "false") {
        Token::False
    } else if word_is(cs, a, b, "or") {
        Token::LOr
    } else if word_is(cs, a, b, "and") {
        Token::LAnd
    } else {
        Token::Identifier
    }
}

fn is_alpha(c: char) -> bool {
    ('a' <= c && c <= 'z') || ('A' <= c && c <= 'Z') || c == '_'
}

fn is_digit(c: char) -> (r: bool)
    ensures
        r == ('0' <= c && c <= '9'),
{
    '0' <= c && c <= '9'
}

/// The operator or punctuation token that starts at `i`, and its length in characters.
fn symbol(cs: &Vec<char>, i: usize) -> (r: (Token, usize))
    requires
        i < cs.len(),
    ensures
        1 <= r.1 <= 2,
        i + r.1 <= cs.len(),
{
    let c = cs[i];
    let eq_next = i + 1 < cs.len() && cs[i + 1] == '=';
    let two = |t: Token| -> (Token, usize) { (t, 2) };
    if c == '(' {
        (Token::LParen, 1)
    } else if c == ')' {
        (Token::RParen, 1)
    } else if c == '{' {
        (Token::LCurly, 1)
    } else if c == '}' {
        (Token::RCurly, 1)
    } else if c == '[' {
        (Token::LBrace, 1)
    } else if c == ']' {
        (Token::RBrace, 1)
    } else if c == ',' {
        (Token::Comma, 1)
    } else if c == '.' {
        (Token::Dot, 1)
    } else if c == ';' {
        (Token::Semicolon, 1)
    } else if c == '=' {
        if eq_next { (Token::Eq, 2) } else { (Token::Assign, 1) }
    } else if c == '!' {
        if eq_next { (Token::Ne, 2) } else { (Token::Not, 1) }
    } else if c == '+' {
        if eq_next { (Token::PlusEq, 2) } else { (Token::Plus, 1) }
    } else if c == '-' {
        if eq_next { (Token::SubEq, 2) } else { (Token::Minus, 1) }
    } else if c == '*' {
        if eq_next { (Token::MulEq, 2) } else { (Token::Times, 1) }
    } else if c == '/' {
        if eq_next { (Token::DivEq, 2) } else { (Token::Divide, 1) }
    } else if c == '%' {
        if eq_next { (Token::ModEq, 2) } else { (Token::Mod, 1) }
    } else if c == '^' {
        if eq_next { (Token::XorEq, 2) } else { (Token::Xor, 1) }
    } else if c == '&' {
        if eq_next {
            (Token::AndEq, 2)
        } else if i + 1 < cs.len() && cs[i + 1] == '&' {
            (Token::LAnd, 2)
        } else {
            (Token::And, 1)
        }
    } else if c == '|' {
        if eq_next {
            (Token::OrEq, 2)
        } else if i + 1 < cs.len() && cs[i + 1] == '|' {
            (Token::LOr, 2)
        } else {
            (Token::Or, 1)
        }
    } else if c == '<' {
        if eq_next {
            (Token::Lte, 2)
        } else if i + 1 < cs.len() && cs[i + 1] == '<' {
            (Token::LShift, 2)
        } else {
            (Token::Lt, 1)
        }
    } else if c == '>' {
        if eq_next {
            (Token::Gte, 2)
        } else if i + 1 < cs.len() && cs[i + 1] == '>' {
            (Token::RShift, 2)
        } else {
            (Token::Gt, 1)
        }
    } else {
        (Token::Unknown, 1)
    }
}

/// Splits source text into tokens; every span lies within the text.
pub fn scan(src: &str) -> (r: Vec<TokenInfo>)
    ensures
        forall|k: int| 0 <= k < r.len() ==> r@[k].span.start + r@[k].span.len <= src@.len(),
{
    let n = src.unicode_len();
    let mut cs: Vec<char> = Vec::new();
    let mut i: usize = 0;
    while i < n
        invariant
            n == src@.len(),
            i <= n,
            cs@ == src@.subrange(0, i as int),
        decreases n - i,
    {
        cs.push(src.get_char(i));
        i = i + 1;
        assert(cs@ =~= src@.subrange(0, i as int));
    }
    let mut out: Vec<TokenInfo> = Vec::new();
    let mut line: usize = 1;
    let mut i: usize = 0;
    while i < n
        invariant
            n == src@.len() == cs.len(),
            i <= n,
            forall|k: int| 0 <= k < out.len() ==> out@[k].span.start + out@[k].span.len <= n,
        decreases n - i,
    {
        let c = cs[i];
        if c == '\n' {
            if line < usize::MAX {
                line = line + 1;
            }
            i = i + 1;
        } else if c == ' ' || c == '\t' || c == '\r' {
            i = i + 1;
        } else if is_alpha(c) || is_digit(c) {
            let start = i;
            let mut value: u64 = if is_digit(c) { (c as u32 - '0' as u32) as u64 } else { 0 };
            i = i + 1;
            while i < n && (is_alpha(cs[i]) || is_digit(cs[i]))
                invariant
                    n == cs.len(),
                    start < i <= n,
                decreases n - i,
            {
                let d = cs[i];
                if is_digit(d) && value < 1000000000000000000 {
                    value = value * 10 + (d as u32 - '0' as u32) as u64;
                }
                i = i + 1;
            }
            let tok = if is_digit(c) { Token::Number } else { keyword(&cs, start, i) };
            let lexeme = String::from_str(src.substring_char(start, i));
            let span = Span { start, len: i - start, line };
            out.push(TokenInfo::new(tok, lexeme, value, span));
        } else if c == '"' {
            let start = i;
            i = i + 1;
            while i < n && cs[i] != '"'
                invariant
                    n == cs.len(),
                    start < i <= n,
                decreases n - i,
            {
                i = i + 1;
            }
            let lexeme = String::from_str(src.substring_char(start + 1, i));
            if i < n {
                i = i + 1;
            }
            let span = Span { start, len: i - start, line };
            out.push(TokenInfo::new(Token::Str, lexeme, 0, span));
        } else {
            let (tok, len) = symbol(&cs, i);
            let span = Span { start: i, len, line };
            out.push(TokenInfo::new(tok, String::new(), 0, span));
            i = i + len;
        }
    }
    out
}

} // verus!
