use vstd::prelude::*;
use crate::ast::{Expr, LiteralType, Stmt};
use crate::error::{Error, ErrorInfo};
use crate::token::{Span, Token, TokenInfo};

verus! {

/// The mathematical value of a literal.
pub enum SLit {
    Boolean(bool),
    Number(u64),
    Str(Seq<char>),
}

/// The mathematical value of an expression tree: names as character sequences and
/// argument lists as sequences.
pub enum SExpr {
    Literal(SLit, Span),
    Variable(Seq<char>, Span),
    Grouping(Box<SExpr>, Span),
    Unary(Token, Box<SExpr>, Span),
    Binary(Box<SExpr>, Token, Box<SExpr>, Span),
    Logical(Box<SExpr>, Token, Box<SExpr>, Span),
    Assign(Seq<char>, Box<SExpr>, Span),
    SetProperty(Box<SExpr>, Seq<char>, Box<SExpr>, Span),
    Property(Box<SExpr>, Seq<char>, Span),
    Call(Box<SExpr>, Seq<SExpr>, Span),
    Super(Seq<char>, Span),
}

pub open spec fn lit_view(l: LiteralType) -> SLit {
    match l {
        LiteralType::Boolean(b) => SLit::Boolean(b),
        LiteralType::Number(n) => SLit::Number(n),
        LiteralType::Str(s) => SLit::Str(s@),
    }
}

/// The mathematical value of an expression.
pub open spec fn view_expr(e: Expr) -> SExpr
    decreases e,
{
    match e {
        Expr::Literal { value, span } => SExpr::Literal(lit_view(value), span),
        Expr::Variable { name, span } => SExpr::Variable(name@, span),
        Expr::Grouping { expr, span } => SExpr::Grouping(Box::new(view_expr(*expr)), span),
        Expr::Unary { op, right, span } => SExpr::Unary(op, Box::new(view_expr(*right)), span),
        Expr::Binary { left, op, right, span } => SExpr::Binary(
            Box::new(view_expr(*left)),
            op,
            Box::new(view_expr(*right)),
            span,
        ),
        Expr::Logical { left, op, right, span } => SExpr::Logical(
            Box::new(view_expr(*left)),
            op,
            Box::new(view_expr(*right)),
            span,
        ),
        Expr::Assign { name, value, span } => SExpr::Assign(name@, Box::new(view_expr(*value)), span),
        Expr::SetProperty { object, name, value, span } => SExpr::SetProperty(
            Box::new(view_expr(*object)),
            name@,
            Box::new(view_expr(*value)),
            span,
        ),
        Expr::Property { object, name, span } => SExpr::Property(
            Box::new(view_expr(*object)),
            name@,
            span,
        ),
        Expr::Call { callee, args, span } => SExpr::Call(
            Box::new(view_expr(*callee)),
            Seq::new(
                args@.len(),
                |k: int| if 0 <= k < args@.len() { view_expr(args@[k]) } else { SExpr::Super(Seq::empty(), span) },
            ),
            span,
        ),
        Expr::Super { name, span } => SExpr::Super(name@, span),
    }
}

pub open spec fn view_exprs(s: Seq<Expr>) -> Seq<SExpr> {
    Seq::new(s.len(), |k: int| view_expr(s[k]))
}

pub open spec fn view_res(r: Result<Expr, ErrorInfo>) -> Result<SExpr, ErrorInfo> {
    match r {
        Ok(e) => Ok(view_expr(e)),
        Err(x) => Err(x),
    }
}

/// Where the end of input lies: the span of the last token, if any.
pub open spec fn end_span(ts: Seq<TokenInfo>) -> Span {
    if ts.len() > 0 { ts.last().span } else { Span { start: 0, len: 0, line: 1 } }
}

/// The tag of the token at position `i`; past the tokens, the end of input.
pub open spec fn tag(ts: Seq<TokenInfo>, i: int) -> Token {
    if 0 <= i < ts.len() { ts[i].token } else { Token::Eof }
}

/// The span of the token at position `i`; past the tokens, the end of input.
pub open spec fn span_at(ts: Seq<TokenInfo>, i: int) -> Span {
    if 0 <= i < ts.len() { ts[i].span } else { end_span(ts) }
}

/// The position after consuming the token at `i`; the end of input is never consumed.
pub open spec fn adv(ts: Seq<TokenInfo>, i: int) -> int {
    if i < ts.len() { i + 1 } else { i }
}

pub open spec fn err<T>(error: Error, span: Span) -> Result<T, ErrorInfo> {
    Err(ErrorInfo { error, span })
}

/// An expression (the assignment level) starting at `i`: its value and the position
/// after it.
pub open spec fn p_expr(ts: Seq<TokenInfo>, i: int) -> (Result<SExpr, ErrorInfo>, int)
    decreases ts.len() - i, 22int,
{
    p_assign(ts, i)
}

/// The target rule of assignment: a variable is assigned, a property is stored,
/// anything else is an invalid target at the operator's span.
pub open spec fn assign_to(target: SExpr, value: SExpr, op_span: Span) -> Result<SExpr, ErrorInfo> {
    match target {
        SExpr::Variable(n, s) => Ok(SExpr::Assign(n, Box::new(value), s)),
        SExpr::Property(o, n, s) => Ok(SExpr::SetProperty(o, n, Box::new(value), s)),
        _ => err(Error::InvalidAssignmentTarget, op_span),
    }
}

pub open spec fn is_assign_tag(t: Token) -> bool {
    t == Token::Assign || t == Token::PlusEq || t == Token::SubEq || t == Token::ModEq
        || t == Token::DivEq || t == Token::AndEq || t == Token::OrEq || t == Token::MulEq
        || t == Token::XorEq
}

/// Assignment: an `or`-level expression, optionally followed by an assignment
/// operator and a second `or`-level expression (assignment does not chain).
pub open spec fn p_assign(ts: Seq<TokenInfo>, i: int) -> (Result<SExpr, ErrorInfo>, int)
    decreases ts.len() - i, 21int,
{
    match p_level(ts, i, 2) {
        (Ok(l), j) => if is_assign_tag(tag(ts, j)) && i <= j {
            match p_level(ts, j + 1, 2) {
                (Ok(r), k) => (assign_to(l, r, span_at(ts, j)), k),
                (Err(x), k) => (Err(x), k),
            }
        } else {
            (Ok(l), j)
        },
        (Err(x), j) => (Err(x), j),
    }
}

/// The operators that fold at level `lvl` (2 `||`, 3 `&&`, 4 equality,
/// 5 comparison, 6 additive and bitwise, 7 multiplicative).
pub open spec fn level_op(t: Token, lvl: int) -> bool {
    crate::prec::op_level(t) == lvl && lvl >= 2
}

/// A chain of operators of level `lvl` starting at `i`; from level 8 on, a unary
/// expression.
pub open spec fn p_level(ts: Seq<TokenInfo>, i: int, lvl: int) -> (Result<SExpr, ErrorInfo>, int)
    decreases ts.len() - i, 20 - (if lvl < 8 { lvl } else { 8 }),
{
    if lvl >= 8 {
        p_unary(ts, i)
    } else {
        match p_level(ts, i, lvl + 1) {
            (Ok(l), j) => if i <= j <= ts.len() {
                p_fold(ts, j, lvl, l)
            } else {
                (err(Error::Syntax, span_at(ts, j)), j)
            },
            (Err(x), j) => (Err(x), j),
        }
    }
}

/// Given the left operand `left`, folds operators of level `lvl` from position `j`
/// to the left.
pub open spec fn p_fold(ts: Seq<TokenInfo>, j: int, lvl: int, left: SExpr) -> (Result<SExpr, ErrorInfo>, int)
    decreases ts.len() - j, 0int,
{
    if level_op(tag(ts, j), lvl) && j < ts.len() && lvl < 8 {
        match p_level(ts, j + 1, lvl + 1) {
            (Ok(r), k) => if j < k <= ts.len() {
                let op = tag(ts, j);
                let node = if lvl <= 5 {
                    SExpr::Logical(Box::new(left), op, Box::new(r), span_at(ts, j))
                } else {
                    SExpr::Binary(Box::new(left), op, Box::new(r), span_at(ts, j))
                };
                p_fold(ts, k, lvl, node)
            } else {
                (err(Error::Syntax, span_at(ts, k)), k)
            },
            (Err(x), k) => (Err(x), k),
        }
    } else {
        (Ok(left), j)
    }
}

pub open spec fn is_unary_tag(t: Token) -> bool {
    t == Token::Minus || t == Token::Not || t == Token::Plus
}

/// Prefix operators, right-associative, over a postfix chain.
pub open spec fn p_unary(ts: Seq<TokenInfo>, i: int) -> (Result<SExpr, ErrorInfo>, int)
    decreases ts.len() - i, 5int,
{
    if is_unary_tag(tag(ts, i)) && 0 <= i < ts.len() {
        match p_unary(ts, i + 1) {
            (Ok(r), j) => (Ok(SExpr::Unary(tag(ts, i), Box::new(r), span_at(ts, i))), j),
            (Err(x), j) => (Err(x), j),
        }
    } else {
        p_call(ts, i)
    }
}

/// A primary expression followed by its chain of calls and property accesses.
pub open spec fn p_call(ts: Seq<TokenInfo>, i: int) -> (Result<SExpr, ErrorInfo>, int)
    decreases ts.len() - i, 4int,
{
    match p_primary(ts, i) {
        (Ok(e), j) => if i <= j <= ts.len() {
            p_postfix(ts, j, e)
        } else {
            (err(Error::Syntax, span_at(ts, j)), j)
        },
        (Err(x), j) => (Err(x), j),
    }
}

/// The call and property suffixes from position `j`, applied to `e` left to right.
pub open spec fn p_postfix(ts: Seq<TokenInfo>, j: int, e: SExpr) -> (Result<SExpr, ErrorInfo>, int)
    decreases ts.len() - j, 1int,
{
    if tag(ts, j) == Token::LParen && 0 <= j < ts.len() {
        let args = if tag(ts, j + 1) == Token::RParen {
            (Ok(Seq::<SExpr>::empty()), j + 1)
        } else {
            p_args(ts, j + 1, Seq::empty())
        };
        match args {
            (Ok(a), m) => if tag(ts, m) != Token::RParen {
                (err(Error::Syntax, span_at(ts, m)), adv(ts, m))
            } else if j < m < ts.len() {
                p_postfix(ts, m + 1, SExpr::Call(Box::new(e), a, span_at(ts, j)))
            } else {
                (err(Error::Syntax, span_at(ts, m)), m)
            },
            (Err(x), m) => (Err(x), m),
        }
    } else if tag(ts, j) == Token::Dot && 0 <= j < ts.len() {
        if tag(ts, j + 1) == Token::Identifier {
            p_postfix(
                ts,
                j + 2,
                SExpr::Property(Box::new(e), ts[j + 1].lexeme@, span_at(ts, j + 1)),
            )
        } else {
            (err(Error::ExpectedIdentifier, span_at(ts, j + 1)), adv(ts, j + 1))
        }
    } else {
        (Ok(e), j)
    }
}

/// A comma-separated list of expressions from position `k`, appended to `acc`.
pub open spec fn p_args(ts: Seq<TokenInfo>, k: int, acc: Seq<SExpr>) -> (Result<Seq<SExpr>, ErrorInfo>, int)
    decreases ts.len() - k, 23int,
{
    match p_expr(ts, k) {
        (Ok(e), m) => if tag(ts, m) == Token::Comma && k <= m < ts.len() {
            p_args(ts, m + 1, acc.push(e))
        } else {
            (Ok(acc.push(e)), m)
        },
        (Err(x), m) => (Err(x), m),
    }
}

/// A primary expression: a literal, a name, `this`, a parenthesized expression or
/// `super.name`; any other token is an expected-expression error at that token.
pub open spec fn p_primary(ts: Seq<TokenInfo>, i: int) -> (Result<SExpr, ErrorInfo>, int)
    decreases ts.len() - i, 3int,
{
    let t = tag(ts, i);
    let sp = span_at(ts, i);
    if t == Token::True {
        (Ok(SExpr::Literal(SLit::Boolean(true), sp)), i + 1)
    } else if t == Token::False {
        (Ok(SExpr::Literal(SLit::Boolean(false), sp)), i + 1)
    } else if t == Token::Number {
        (Ok(SExpr::Literal(SLit::Number(ts[i].value), sp)), i + 1)
    } else if t == Token::Str {
        (Ok(SExpr::Literal(SLit::Str(ts[i].lexeme@), sp)), i + 1)
    } else if t == Token::Identifier {
        (Ok(SExpr::Variable(ts[i].lexeme@, sp)), i + 1)
    } else if t == Token::This {
        (Ok(SExpr::Variable("this"@, sp)), i + 1)
    } else if t == Token::LParen && 0 <= i < ts.len() {
        match p_expr(ts, i + 1) {
            (Ok(e), j) => if tag(ts, j) == Token::RParen {
                (Ok(SExpr::Grouping(Box::new(e), sp)), j + 1)
            } else {
                (err(Error::Syntax, span_at(ts, j)), adv(ts, j))
            },
            (Err(x), j) => (Err(x), j),
        }
    } else if t == Token::Super {
        if tag(ts, i + 1) != Token::Dot {
            (err(Error::Syntax, span_at(ts, i + 1)), adv(ts, i + 1))
        } else if tag(ts, i + 2) != Token::Identifier {
            (err(Error::ExpectedIdentifier, span_at(ts, i + 2)), adv(ts, i + 2))
        } else {
            (Ok(SExpr::Super(ts[i + 2].lexeme@, span_at(ts, i + 2))), i + 3)
        }
    } else {
        (err(Error::ExpectedExpression, sp), i)
    }
}

/// The mathematical value of a statement.
pub enum SStmt {
    Expr(SExpr, Span),
    Print(SExpr, Span),
    Block(Seq<SStmt>, Span),
    Let(Seq<char>, Option<SExpr>, bool, Span),
    If(SExpr, Box<SStmt>, Option<Box<SStmt>>, Span),
    While(SExpr, Box<SStmt>, Span),
    For(Option<Box<SStmt>>, Option<SExpr>, Option<SExpr>, Box<SStmt>, Span),
    Function(Seq<char>, Seq<Seq<char>>, Box<SStmt>, Span),
    Return(Option<SExpr>, Span),
    Class(Seq<char>, Option<Seq<char>>, Seq<SStmt>, Span),
    Break(Span),
    Continue(Span),
}

pub open spec fn view_opt(e: Option<Expr>) -> Option<SExpr> {
    match e {
        Some(x) => Some(view_expr(x)),
        None => None,
    }
}

pub open spec fn view_opt_name(o: Option<String>) -> Option<Seq<char>> {
    match o {
        Some(c) => Some(c@),
        None => None,
    }
}

pub open spec fn view_names(s: Seq<String>) -> Seq<Seq<char>> {
    Seq::new(s.len(), |k: int| s[k]@)
}

/// The mathematical value of a statement.
pub open spec fn view_stmt(s: Stmt) -> SStmt
    decreases s,
{
    match s {
        Stmt::Expr { expr, span } => SStmt::Expr(view_expr(expr), span),
        Stmt::Print { expr, span } => SStmt::Print(view_expr(expr), span),
        Stmt::Block { stmt, span } => SStmt::Block(
            Seq::new(
                stmt@.len(),
                |k: int| if 0 <= k < stmt@.len() { view_stmt(stmt@[k]) } else { SStmt::Break(span) },
            ),
            span,
        ),
        Stmt::Let { name, value, is_const, span } => SStmt::Let(name@, view_opt(value), is_const, span),
        Stmt::If { condition, truthy, falsy, span } => SStmt::If(
            view_expr(condition),
            Box::new(view_stmt(*truthy)),
            match falsy {
                Some(f) => Some(Box::new(view_stmt(*f))),
                None => None,
            },
            span,
        ),
        Stmt::While { condition, body, span } => SStmt::While(
            view_expr(condition),
            Box::new(view_stmt(*body)),
            span,
        ),
        Stmt::For { initializer, condition, increment, body, span } => SStmt::For(
            match initializer {
                Some(x) => Some(Box::new(view_stmt(*x))),
                None => None,
            },
            view_opt(condition),
            view_opt(increment),
            Box::new(view_stmt(*body)),
            span,
        ),
        Stmt::Function { name, params, body, span } => SStmt::Function(
            name@,
            view_names(params@),
            Box::new(view_stmt(*body)),
            span,
        ),
        Stmt::Return { value, span } => SStmt::Return(view_opt(value), span),
        Stmt::Class { name, super_class, methods, span } => SStmt::Class(
            name@,
            view_opt_name(super_class),
            Seq::new(
                methods@.len(),
                |k: int| if 0 <= k < methods@.len() { view_stmt(methods@[k]) } else { SStmt::Break(span) },
            ),
            span,
        ),
        Stmt::Break { span } => SStmt::Break(span),
        Stmt::Continue { span } => SStmt::Continue(span),
    }
}

pub open spec fn view_stmts(s: Seq<Stmt>) -> Seq<SStmt> {
    Seq::new(s.len(), |k: int| view_stmt(s[k]))
}

pub open spec fn view_sres(r: Result<Stmt, ErrorInfo>) -> Result<SStmt, ErrorInfo> {
    match r {
        Ok(s) => Ok(view_stmt(s)),
        Err(x) => Err(x),
    }
}

/// The statement terminator `;` at `j` after a complete statement `s`.
pub open spec fn end_with(ts: Seq<TokenInfo>, j: int, t: Token, s: SStmt) -> (Result<SStmt, ErrorInfo>, int) {
    if tag(ts, j) == t {
        (Ok(s), j + 1)
    } else {
        (err(Error::Syntax, span_at(ts, j)), adv(ts, j))
    }
}

/// A declaration: `let`/`const`, `class`, `fun`, or else a statement.
pub open spec fn p_decl(ts: Seq<TokenInfo>, i: int) -> (Result<SStmt, ErrorInfo>, int)
    decreases ts.len() - i, 30int,
{
    let t = tag(ts, i);
    if t == Token::Let || t == Token::Const {
        p_let(ts, i)
    } else if t == Token::Class {
        p_class(ts, i)
    } else if t == Token::Function && 0 <= i < ts.len() {
        p_func(ts, i + 1)
    } else {
        p_stmt(ts, i)
    }
}

/// `let name [= expr];` or `const name [= expr];`, the keyword at `i`.
pub open spec fn p_let(ts: Seq<TokenInfo>, i: int) -> (Result<SStmt, ErrorInfo>, int)
    decreases ts.len() - i, 27int,
{
    let is_const = tag(ts, i) == Token::Const;
    if !(0 <= i < ts.len()) {
        (err(Error::Syntax, span_at(ts, i)), i)
    } else if tag(ts, i + 1) != Token::Identifier {
        (err(Error::ExpectedIdentifier, span_at(ts, i + 1)), adv(ts, i + 1))
    } else {
        let name = ts[i + 1].lexeme@;
        let span = span_at(ts, i + 1);
        if tag(ts, i + 2) == Token::Assign {
            match p_expr(ts, i + 3) {
                (Ok(e), j) => end_with(ts, j, Token::Semicolon, SStmt::Let(name, Some(e), is_const, span)),
                (Err(x), j) => (Err(x), j),
            }
        } else {
            end_with(ts, i + 2, Token::Semicolon, SStmt::Let(name, None, is_const, span))
        }
    }
}

/// `class Name [< Super] { methods }`, the keyword at `i`; a class may not name
/// itself as its superclass.
pub open spec fn p_class(ts: Seq<TokenInfo>, i: int) -> (Result<SStmt, ErrorInfo>, int)
    decreases ts.len() - i, 29int,
{
    if !(0 <= i < ts.len()) {
        (err(Error::Syntax, span_at(ts, i)), i)
    } else if tag(ts, i + 1) != Token::Identifier {
        (err(Error::ExpectedIdentifier, span_at(ts, i + 1)), adv(ts, i + 1))
    } else {
        let name = ts[i + 1].lexeme@;
        let span = span_at(ts, i + 1);
        let head: (Result<Option<Seq<char>>, ErrorInfo>, int) = if tag(ts, i + 2) == Token::Lt {
            if tag(ts, i + 3) != Token::Identifier {
                (err(Error::ExpectedIdentifier, span_at(ts, i + 3)), adv(ts, i + 3))
            } else if ts[i + 3].lexeme@ == name {
                (err(Error::SelfInheritance, span_at(ts, i + 3)), i + 4)
            } else {
                (Ok(Some(ts[i + 3].lexeme@)), i + 4)
            }
        } else {
            (Ok(None), i + 2)
        };
        match head {
            (Ok(sup), k) => if tag(ts, k) != Token::LCurly {
                (err(Error::Syntax, span_at(ts, k)), adv(ts, k))
            } else if i < k < ts.len() {
                match p_methods(ts, k + 1, Seq::empty()) {
                    (Ok(ms), m) => end_with(ts, m, Token::RCurly, SStmt::Class(name, sup, ms, span)),
                    (Err(x), m) => (Err(x), m),
                }
            } else {
                (err(Error::Syntax, span_at(ts, k)), k)
            },
            (Err(x), k) => (Err(x), k),
        }
    }
}

/// Method declarations from `k` up to a closing brace or the end of input.
pub open spec fn p_methods(ts: Seq<TokenInfo>, k: int, acc: Seq<SStmt>) -> (Result<Seq<SStmt>, ErrorInfo>, int)
    decreases ts.len() - k, 31int,
{
    if tag(ts, k) == Token::RCurly || tag(ts, k) == Token::Eof {
        (Ok(acc), k)
    } else {
        match p_func(ts, k) {
            (Ok(f), m) => if k < m <= ts.len() {
                p_methods(ts, m, acc.push(f))
            } else {
                (err(Error::Syntax, span_at(ts, m)), m)
            },
            (Err(x), m) => (Err(x), m),
        }
    }
}

/// Parameter names from `k`: a name, then more names each after a comma.
pub open spec fn p_params(ts: Seq<TokenInfo>, k: int, acc: Seq<Seq<char>>) -> (Result<Seq<Seq<char>>, ErrorInfo>, int)
    decreases ts.len() - k,
{
    if tag(ts, k) != Token::Identifier {
        (err(Error::ExpectedIdentifier, span_at(ts, k)), adv(ts, k))
    } else if tag(ts, k + 1) == Token::Comma {
        p_params(ts, k + 2, acc.push(ts[k].lexeme@))
    } else {
        (Ok(acc.push(ts[k].lexeme@)), k + 1)
    }
}

/// `name(params) { body }`, the name at `i`.
pub open spec fn p_func(ts: Seq<TokenInfo>, i: int) -> (Result<SStmt, ErrorInfo>, int)
    decreases ts.len() - i, 28int,
{
    if tag(ts, i) != Token::Identifier {
        (err(Error::ExpectedIdentifier, span_at(ts, i)), adv(ts, i))
    } else if tag(ts, i + 1) != Token::LParen {
        (err(Error::Syntax, span_at(ts, i + 1)), adv(ts, i + 1))
    } else {
        let params = if tag(ts, i + 2) == Token::RParen {
            (Ok(Seq::<Seq<char>>::empty()), i + 2)
        } else {
            p_params(ts, i + 2, Seq::empty())
        };
        match params {
            (Ok(ps), m) => if tag(ts, m) != Token::RParen {
                (err(Error::Syntax, span_at(ts, m)), adv(ts, m))
            } else if i < m < ts.len() {
                match p_block(ts, m + 1) {
                    (Ok(b), e) => (Ok(SStmt::Function(ts[i].lexeme@, ps, Box::new(b), span_at(ts, i))), e),
                    (Err(x), e) => (Err(x), e),
                }
            } else {
                (err(Error::Syntax, span_at(ts, m)), m)
            },
            (Err(x), m) => (Err(x), m),
        }
    }
}

/// A statement: `print`, `if`, `while`, `for`, `return`, a block, or an expression
/// statement.
pub open spec fn p_stmt(ts: Seq<TokenInfo>, i: int) -> (Result<SStmt, ErrorInfo>, int)
    decreases ts.len() - i, 26int,
{
    let t = tag(ts, i);
    if t == Token::Print {
        p_print(ts, i)
    } else if t == Token::If {
        p_if(ts, i)
    } else if t == Token::While {
        p_while(ts, i)
    } else if t == Token::For {
        p_for(ts, i)
    } else if t == Token::Return {
        p_return(ts, i)
    } else if t == Token::LCurly {
        p_block(ts, i)
    } else {
        p_expr_stmt(ts, i)
    }
}

/// `expr;`
pub open spec fn p_expr_stmt(ts: Seq<TokenInfo>, i: int) -> (Result<SStmt, ErrorInfo>, int)
    decreases ts.len() - i, 25int,
{
    match p_expr(ts, i) {
        (Ok(e), j) => end_with(ts, j, Token::Semicolon, SStmt::Expr(e, span_at(ts, i))),
        (Err(x), j) => (Err(x), j),
    }
}

/// `print expr;`, the keyword at `i`.
pub open spec fn p_print(ts: Seq<TokenInfo>, i: int) -> (Result<SStmt, ErrorInfo>, int)
    decreases ts.len() - i, 25int,
{
    if !(0 <= i < ts.len()) {
        (err(Error::Syntax, span_at(ts, i)), i)
    } else {
        match p_expr(ts, i + 1) {
            (Ok(e), j) => end_with(ts, j, Token::Semicolon, SStmt::Print(e, span_at(ts, i))),
            (Err(x), j) => (Err(x), j),
        }
    }
}

/// `return [expr];`, the keyword at `i`.
pub open spec fn p_return(ts: Seq<TokenInfo>, i: int) -> (Result<SStmt, ErrorInfo>, int)
    decreases ts.len() - i, 25int,
{
    if !(0 <= i < ts.len()) {
        (err(Error::Syntax, span_at(ts, i)), i)
    } else if tag(ts, i + 1) == Token::Semicolon {
        (Ok(SStmt::Return(None, span_at(ts, i))), i + 2)
    } else {
        match p_expr(ts, i + 1) {
            (Ok(e), j) => end_with(ts, j, Token::Semicolon, SStmt::Return(Some(e), span_at(ts, i))),
            (Err(x), j) => (Err(x), j),
        }
    }
}

/// `while (cond) body`, the keyword at `i`.
pub open spec fn p_while(ts: Seq<TokenInfo>, i: int) -> (Result<SStmt, ErrorInfo>, int)
    decreases ts.len() - i, 25int,
{
    if !(0 <= i < ts.len()) {
        (err(Error::Syntax, span_at(ts, i)), i)
    } else if tag(ts, i + 1) != Token::LParen {
        (err(Error::Syntax, span_at(ts, i + 1)), adv(ts, i + 1))
    } else {
        match p_expr(ts, i + 2) {
            (Ok(c), j) => if tag(ts, j) != Token::RParen {
                (err(Error::Syntax, span_at(ts, j)), adv(ts, j))
            } else if i < j < ts.len() {
                match p_stmt(ts, j + 1) {
                    (Ok(b), k) => (Ok(SStmt::While(c, Box::new(b), span_at(ts, i))), k),
                    (Err(x), k) => (Err(x), k),
                }
            } else {
                (err(Error::Syntax, span_at(ts, j)), j)
            },
            (Err(x), j) => (Err(x), j),
        }
    }
}

/// `if (cond) then [else otherwise]`, the keyword at `i`; an `else` belongs to the
/// nearest `if`.
pub open spec fn p_if(ts: Seq<TokenInfo>, i: int) -> (Result<SStmt, ErrorInfo>, int)
    decreases ts.len() - i, 25int,
{
    if !(0 <= i < ts.len()) {
        (err(Error::Syntax, span_at(ts, i)), i)
    } else if tag(ts, i + 1) != Token::LParen {
        (err(Error::Syntax, span_at(ts, i + 1)), adv(ts, i + 1))
    } else {
        match p_expr(ts, i + 2) {
            (Ok(c), j) => if tag(ts, j) != Token::RParen {
                (err(Error::Syntax, span_at(ts, j)), adv(ts, j))
            } else if i < j < ts.len() {
                match p_stmt(ts, j + 1) {
                    (Ok(t), k) => if tag(ts, k) == Token::Else && j < k < ts.len() {
                        match p_stmt(ts, k + 1) {
                            (Ok(f), m) => (
                                Ok(SStmt::If(c, Box::new(t), Some(Box::new(f)), span_at(ts, i))),
                                m,
                            ),
                            (Err(x), m) => (Err(x), m),
                        }
                    } else if tag(ts, k) == Token::Else {
                        (err(Error::Syntax, span_at(ts, k)), k)
                    } else {
                        (Ok(SStmt::If(c, Box::new(t), None, span_at(ts, i))), k)
                    },
                    (Err(x), k) => (Err(x), k),
                }
            } else {
                (err(Error::Syntax, span_at(ts, j)), j)
            },
            (Err(x), j) => (Err(x), j),
        }
    }
}

/// The initializer of a `for`, at `k`: nothing before `;`, a `let` declaration, or an
/// expression statement.
pub open spec fn p_for_init(ts: Seq<TokenInfo>, k: int) -> (Result<Option<Box<SStmt>>, ErrorInfo>, int)
    decreases ts.len() - k, 28int,
{
    if tag(ts, k) == Token::Semicolon {
        (Ok(None), k + 1)
    } else if tag(ts, k) == Token::Let {
        match p_let(ts, k) {
            (Ok(s), j) => (Ok(Some(Box::new(s))), j),
            (Err(x), j) => (Err(x), j),
        }
    } else {
        match p_expr_stmt(ts, k) {
            (Ok(s), j) => (Ok(Some(Box::new(s))), j),
            (Err(x), j) => (Err(x), j),
        }
    }
}

/// An optional expression at `k`, absent when the token there is `stop`.
pub open spec fn p_opt_expr(ts: Seq<TokenInfo>, k: int, stop: Token) -> (Result<Option<SExpr>, ErrorInfo>, int)
    decreases ts.len() - k, 28int,
{
    if tag(ts, k) == stop {
        (Ok(None), k)
    } else {
        match p_expr(ts, k) {
            (Ok(e), j) => (Ok(Some(e)), j),
            (Err(x), j) => (Err(x), j),
        }
    }
}

/// `for (init cond; incr) body`, the keyword at `i`.
pub open spec fn p_for(ts: Seq<TokenInfo>, i: int) -> (Result<SStmt, ErrorInfo>, int)
    decreases ts.len() - i, 25int,
{
    if !(0 <= i < ts.len()) {
        (err(Error::Syntax, span_at(ts, i)), i)
    } else if tag(ts, i + 1) != Token::LParen {
        (err(Error::Syntax, span_at(ts, i + 1)), adv(ts, i + 1))
    } else {
        match p_for_init(ts, i + 2) {
            (Ok(init), c) => if i < c <= ts.len() {
                match p_opt_expr(ts, c, Token::Semicolon) {
                    (Ok(cond), d) => if tag(ts, d) != Token::Semicolon {
                        (err(Error::Syntax, span_at(ts, d)), adv(ts, d))
                    } else if i < d < ts.len() {
                        match p_opt_expr(ts, d + 1, Token::RParen) {
                            (Ok(incr), e) => if tag(ts, e) != Token::RParen {
                                (err(Error::Syntax, span_at(ts, e)), adv(ts, e))
                            } else if i < e < ts.len() {
                                match p_stmt(ts, e + 1) {
                                    (Ok(b), f) => (
                                        Ok(SStmt::For(init, cond, incr, Box::new(b), span_at(ts, i))),
                                        f,
                                    ),
                                    (Err(x), f) => (Err(x), f),
                                }
                            } else {
                                (err(Error::Syntax, span_at(ts, e)), e)
                            },
                            (Err(x), e) => (Err(x), e),
                        }
                    } else {
                        (err(Error::Syntax, span_at(ts, d)), d)
                    },
                    (Err(x), d) => (Err(x), d),
                }
            } else {
                (err(Error::Syntax, span_at(ts, c)), c)
            },
            (Err(x), c) => (Err(x), c),
        }
    }
}

/// `{ declarations }`, the brace at `i`.
pub open spec fn p_block(ts: Seq<TokenInfo>, i: int) -> (Result<SStmt, ErrorInfo>, int)
    decreases ts.len() - i, 25int,
{
    if tag(ts, i) != Token::LCurly {
        (err(Error::Syntax, span_at(ts, i)), adv(ts, i))
    } else if 0 <= i < ts.len() {
        match p_decls(ts, i + 1, Seq::empty()) {
            (Ok(ss), k) => end_with(ts, k, Token::RCurly, SStmt::Block(ss, span_at(ts, i))),
            (Err(x), k) => (Err(x), k),
        }
    } else {
        (err(Error::Syntax, span_at(ts, i)), i)
    }
}

/// Declarations from `k` up to a closing brace or the end of input, appended to `acc`.
pub open spec fn p_decls(ts: Seq<TokenInfo>, k: int, acc: Seq<SStmt>) -> (Result<Seq<SStmt>, ErrorInfo>, int)
    decreases ts.len() - k, 32int,
{
    if tag(ts, k) == Token::RCurly || tag(ts, k) == Token::Eof {
        (Ok(acc), k)
    } else {
        match p_decl(ts, k) {
            (Ok(s), m) => if k < m <= ts.len() {
                p_decls(ts, m, acc.push(s))
            } else {
                (err(Error::Syntax, span_at(ts, m)), m)
            },
            (Err(x), m) => (Err(x), m),
        }
    }
}

/// A whole program from `k`: declarations up to the end of input, appended to `acc`.
pub open spec fn p_program(ts: Seq<TokenInfo>, k: int, acc: Seq<SStmt>) -> Result<Seq<SStmt>, ErrorInfo>
    decreases ts.len() - k, 33int,
{
    if tag(ts, k) == Token::Eof {
        Ok(acc)
    } else {
        match p_decl(ts, k) {
            (Ok(s), m) => if k < m <= ts.len() {
                p_program(ts, m, acc.push(s))
            } else {
                err(Error::Syntax, span_at(ts, m))
            },
            (Err(x), m) => Err(x),
        }
    }
}

} // verus!
