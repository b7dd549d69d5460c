use vstd::prelude::*;
use crate::ast::{Expr, LiteralType, Program, Stmt};
use crate::error::{Error, ErrorInfo};
use crate::lexer::Lexer;
use crate::grammar::{
    end_with, p_block, p_class, p_decl, p_decls, p_expr_stmt, p_for, p_func, p_if, p_let, p_methods, p_params,
    p_for_init, p_opt_expr, p_print, p_program, p_return, p_stmt, p_while, view_names, view_opt, view_opt_name, view_sres, view_stmt, view_stmts, SStmt,
    adv, assign_to, end_span, p_assign, p_call, p_expr, p_fold, p_level, p_postfix, p_primary, p_unary, p_args,
    span_at, tag, view_expr, view_exprs, view_res, SExpr,
};
use crate::prec::{level, op_level, stmt_ok, well_nested};
use crate::token::{Span, Token, TokenInfo};

verus! {

/// A recursive-descent parser over a token source, holding the current token
/// (next to be consumed) and the previous one.
pub struct Parser {
    lexer: Lexer,
    prev: TokenInfo,
    curr: TokenInfo,
    at: Ghost<int>,
}

/// Whether a token is one of the assignment operators.
pub open spec fn is_assign_op(t: Token) -> bool {
    t == Token::Assign || t == Token::PlusEq || t == Token::SubEq || t == Token::ModEq
        || t == Token::DivEq || t == Token::AndEq || t == Token::OrEq || t == Token::MulEq
        || t == Token::XorEq
}

/// Whether an expression may stand on the left of an assignment operator.
pub open spec fn is_assignable(e: Expr) -> bool {
    e is Variable || e is Property
}

impl Parser {
    pub closed spec fn wf(&self) -> bool {
        let ts = self.lexer.tokens();
        &&& self.lexer.wf()
        &&& 0 <= self.at@ <= ts.len()
        &&& self.at@ < ts.len() ==> self.lexer.pos() == self.at@ + 1 && self.curr == ts[self.at@]
        &&& self.at@ == ts.len() ==> self.lexer.pos() == ts.len() && self.curr.token == Token::Eof
            && self.curr.span == end_span(ts)
    }

    /// The position of the current token in `tokens()`; `tokens().len()` at the end.
    pub closed spec fn pos(&self) -> int {
        self.at@
    }

    /// The tokens the parser reads.
    pub closed spec fn tokens(&self) -> Seq<TokenInfo> {
        self.lexer.tokens()
    }

    /// The token to be consumed next.
    pub closed spec fn current(&self) -> TokenInfo {
        self.curr
    }

    /// A bound on how many tokens can still be consumed.
    pub closed spec fn measure(&self) -> nat {
        (self.lexer.tokens().len() - self.at@) as nat
    }

    /// What every production keeps: a well-formed parser over the same tokens, which
    /// has not moved backwards, and has moved forwards if it succeeded.
    pub open spec fn steps(old: Parser, new: Parser, ok: bool) -> bool {
        &&& new.wf()
        &&& new.tokens() == old.tokens()
        &&& new.measure() <= old.measure()
        &&& ok ==> new.measure() < old.measure()
    }

    pub fn new(lexer: Lexer) -> (r: Parser)
        requires
            lexer.wf(),
        ensures
            r.wf(),
            r.tokens() == lexer.tokens(),
            lexer.pos() < lexer.tokens().len() ==> r.current() == lexer.tokens()[lexer.pos() as int],
            lexer.pos() >= lexer.tokens().len() ==> r.current().token == Token::Eof,
            r.pos() == lexer.pos(),
    {
        let ghost at = lexer.pos() as int;
        proof {
            lexer.lemma_wf();
        }
        let mut lexer = lexer;
        let curr = lexer.next();
        Parser { prev: TokenInfo::eof(Span { start: 0, len: 0, line: 1 }), curr, lexer, at: Ghost(at) }
    }

    /// Consumes the current token and returns its tag and span.
    fn advance(&mut self) -> (r: (Token, Span))
        requires
            old(self).wf(),
        ensures
            Self::steps(*old(self), *final(self), old(self).curr.token != Token::Eof),
            r.0 == old(self).curr.token,
            r.1 == old(self).curr.span,
            final(self).prev == old(self).curr,
            final(self).pos() == adv(old(self).tokens(), old(self).pos()),
    {
        let next = self.lexer.next();
        self.prev = self.curr.duplicate();
        self.curr = next;
        self.at = Ghost(adv(self.lexer.tokens(), self.at@));
        (self.prev.token, self.prev.span)
    }

    /// Consumes the current token, which must have the given tag.
    fn should_be(&mut self, token_type: Token) -> (r: Result<Span, ErrorInfo>)
        requires
            old(self).wf(),
            token_type != Token::Eof,
        ensures
            Self::steps(*old(self), *final(self), r is Ok),
            r is Ok <==> old(self).curr.token == token_type,
            r matches Ok(s) ==> s == old(self).curr.span,
            r matches Err(e) ==> e.error == Error::Syntax && e.span == old(self).curr.span,
            final(self).pos() == adv(old(self).tokens(), old(self).pos()),
    {
        let (val, span) = self.advance();
        if val == token_type {
            Ok(span)
        } else {
            Err(ErrorInfo::new_with_span(Error::Syntax, span))
        }
    }

    /// Consumes the current token, which must be an identifier, and returns its name.
    fn get_identifier(&mut self) -> (r: Result<(String, Span), ErrorInfo>)
        requires
            old(self).wf(),
        ensures
            Self::steps(*old(self), *final(self), r is Ok),
            r is Ok <==> old(self).curr.token == Token::Identifier,
            r matches Ok(p) ==> p.0@ == old(self).curr.lexeme@ && p.1 == old(self).curr.span,
            r matches Err(e) ==> e.error == Error::ExpectedIdentifier && e.span
                == old(self).curr.span,
            final(self).pos() == adv(old(self).tokens(), old(self).pos()),
    {
        let (val, span) = self.advance();
        if val == Token::Identifier {
            Ok((self.prev.lexeme.clone(), span))
        } else {
            Err(ErrorInfo::new_with_span(Error::ExpectedIdentifier, span))
        }
    }
}

/// The fold level of an operator token (see `op_level`).
fn op_level_of(t: Token) -> (r: u8)
    ensures
        r as nat == op_level(t),
{
    match t {
        Token::LOr => 2,
        Token::LAnd => 3,
        Token::Eq | Token::Ne => 4,
        Token::Lt | Token::Lte | Token::Gt | Token::Gte => 5,
        Token::Plus | Token::Minus | Token::Or | Token::And | Token::Xor => 6,
        Token::Times | Token::Divide => 7,
        _ => 0,
    }
}

fn is_assign_token(t: Token) -> (r: bool)
    ensures
        r == is_assign_op(t),
{
    match t {
        Token::Assign | Token::PlusEq | Token::SubEq | Token::ModEq | Token::DivEq | Token::AndEq
        | Token::OrEq | Token::MulEq | Token::XorEq => true,
        _ => false,
    }
}

/// Turns the left side of an assignment into its target: a variable becomes an
/// assignment to that name, a property access becomes a property store, and anything
/// else is an invalid target, reported at the assignment operator's span.
pub fn to_assignment(target: Expr, value: Expr, op_span: Span) -> (r: Result<Expr, ErrorInfo>)
    ensures
        r is Ok <==> is_assignable(target),
        !is_assignable(target) ==> r == Err::<Expr, ErrorInfo>(
            ErrorInfo { error: Error::InvalidAssignmentTarget, span: op_span },
        ),
        target matches Expr::Variable { name, span } ==> r == Ok::<Expr, ErrorInfo>(
            Expr::Assign { name, value: Box::new(value), span },
        ),
        target matches Expr::Property { object, name, span } ==> r == Ok::<Expr, ErrorInfo>(
            Expr::SetProperty { object, name, value: Box::new(value), span },
        ),
        view_res(r) == assign_to(view_expr(target), view_expr(value), op_span),
{
    match target {
        Expr::Variable { name, span } => Ok(Expr::Assign { name, value: Box::new(value), span }),
        Expr::Property { object, name, span } => Ok(
            Expr::SetProperty { object, name, value: Box::new(value), span },
        ),
        _ => Err(ErrorInfo::new_with_span(Error::InvalidAssignmentTarget, op_span)),
    }
}

/// Accepts a superclass name for a class, unless it is the class's own name: that is
/// reported at the superclass name's span.
pub fn check_superclass(name: &String, super_class: String, span: Span) -> (r: Result<
    String,
    ErrorInfo,
>)
    ensures
        r is Err <==> super_class@ == name@,
        r is Err ==> r == Err::<String, ErrorInfo>(
            ErrorInfo { error: Error::SelfInheritance, span },
        ),
        r is Ok ==> r == Ok::<String, ErrorInfo>(super_class),
{
    if *name == super_class {
        Err(ErrorInfo::new_with_span(Error::SelfInheritance, span))
    } else {
        Ok(super_class)
    }
}

/// Whether a primary expression can start with this token.
pub open spec fn starts_primary(t: Token) -> bool {
    t == Token::True || t == Token::False || t == Token::Number || t == Token::Str
        || t == Token::Identifier || t == Token::LParen || t == Token::Super || t == Token::This
}

impl Parser {
    fn expression(&mut self) -> (r: Result<Expr, ErrorInfo>)
        requires
            old(self).wf(),
        ensures
            Self::steps(*old(self), *final(self), r is Ok),
            view_res(r) == p_expr(old(self).tokens(), old(self).pos()).0,
            r is Ok ==> final(self).pos() == p_expr(old(self).tokens(), old(self).pos()).1,
            r matches Ok(e) ==> well_nested(e) && level(e) >= 1,
        decreases old(self).measure(), 12nat,
    {
        self.assignment()
    }

    fn assignment(&mut self) -> (r: Result<Expr, ErrorInfo>)
        requires
            old(self).wf(),
        ensures
            Self::steps(*old(self), *final(self), r is Ok),
            view_res(r) == p_assign(old(self).tokens(), old(self).pos()).0,
            r is Ok ==> final(self).pos() == p_assign(old(self).tokens(), old(self).pos()).1,
            r matches Ok(e) ==> well_nested(e) && level(e) >= 1,
        decreases old(self).measure(), 11nat,
    {
        let left = self.or()?;
        if is_assign_token(self.curr.token) {
            let (_, span) = self.advance();
            let right = self.or()?;
            to_assignment(left, right, span)
        } else {
            Ok(left)
        }
    }

    fn or(&mut self) -> (r: Result<Expr, ErrorInfo>)
        requires
            old(self).wf(),
        ensures
            Self::steps(*old(self), *final(self), r is Ok),
            view_res(r) == p_level(old(self).tokens(), old(self).pos(), 2).0,
            r is Ok ==> final(self).pos() == p_level(old(self).tokens(), old(self).pos(), 2).1,
            r matches Ok(e) ==> well_nested(e) && level(e) >= 2,
        decreases old(self).measure(), 10nat,
    {
        let mut left = self.and()?;
        while op_level_of(self.curr.token) == 2
            invariant
                Self::steps(*old(self), *self, true),
                well_nested(left),
                level(left) >= 2,
                p_fold(self.tokens(), self.pos(), 2, view_expr(left)) == p_level(
                    old(self).tokens(),
                    old(self).pos(),
                    2,
                ),
            decreases self.measure(),
        {
            let (op, span) = self.advance();
            let right = self.and()?;
            left = Expr::Logical { left: Box::new(left), op, right: Box::new(right), span };
        }
        Ok(left)
    }

    fn and(&mut self) -> (r: Result<Expr, ErrorInfo>)
        requires
            old(self).wf(),
        ensures
            Self::steps(*old(self), *final(self), r is Ok),
            view_res(r) == p_level(old(self).tokens(), old(self).pos(), 3).0,
            r is Ok ==> final(self).pos() == p_level(old(self).tokens(), old(self).pos(), 3).1,
            r matches Ok(e) ==> well_nested(e) && level(e) >= 3,
        decreases old(self).measure(), 9nat,
    {
        let mut left = self.equality()?;
        while op_level_of(self.curr.token) == 3
            invariant
                Self::steps(*old(self), *self, true),
                well_nested(left),
                level(left) >= 3,
                p_fold(self.tokens(), self.pos(), 3, view_expr(left)) == p_level(
                    old(self).tokens(),
                    old(self).pos(),
                    3,
                ),
            decreases self.measure(),
        {
            let (op, span) = self.advance();
            let right = self.equality()?;
            left = Expr::Logical { left: Box::new(left), op, right: Box::new(right), span };
        }
        Ok(left)
    }

    fn equality(&mut self) -> (r: Result<Expr, ErrorInfo>)
        requires
            old(self).wf(),
        ensures
            Self::steps(*old(self), *final(self), r is Ok),
            view_res(r) == p_level(old(self).tokens(), old(self).pos(), 4).0,
            r is Ok ==> final(self).pos() == p_level(old(self).tokens(), old(self).pos(), 4).1,
            r matches Ok(e) ==> well_nested(e) && level(e) >= 4,
        decreases old(self).measure(), 8nat,
    {
        let mut left = self.comparison()?;
        while op_level_of(self.curr.token) == 4
            invariant
                Self::steps(*old(self), *self, true),
                well_nested(left),
                level(left) >= 4,
                p_fold(self.tokens(), self.pos(), 4, view_expr(left)) == p_level(
                    old(self).tokens(),
                    old(self).pos(),
                    4,
                ),
            decreases self.measure(),
        {
            let (op, span) = self.advance();
            let right = self.comparison()?;
            left = Expr::Logical { left: Box::new(left), op, right: Box::new(right), span };
        }
        Ok(left)
    }

    fn comparison(&mut self) -> (r: Result<Expr, ErrorInfo>)
        requires
            old(self).wf(),
        ensures
            Self::steps(*old(self), *final(self), r is Ok),
            view_res(r) == p_level(old(self).tokens(), old(self).pos(), 5).0,
            r is Ok ==> final(self).pos() == p_level(old(self).tokens(), old(self).pos(), 5).1,
            r matches Ok(e) ==> well_nested(e) && level(e) >= 5,
        decreases old(self).measure(), 7nat,
    {
        let mut left = self.term()?;
        while op_level_of(self.curr.token) == 5
            invariant
                Self::steps(*old(self), *self, true),
                well_nested(left),
                level(left) >= 5,
                p_fold(self.tokens(), self.pos(), 5, view_expr(left)) == p_level(
                    old(self).tokens(),
                    old(self).pos(),
                    5,
                ),
            decreases self.measure(),
        {
            let (op, span) = self.advance();
            let right = self.term()?;
            left = Expr::Logical { left: Box::new(left), op, right: Box::new(right), span };
        }
        Ok(left)
    }

    fn term(&mut self) -> (r: Result<Expr, ErrorInfo>)
        requires
            old(self).wf(),
        ensures
            Self::steps(*old(self), *final(self), r is Ok),
            view_res(r) == p_level(old(self).tokens(), old(self).pos(), 6).0,
            r is Ok ==> final(self).pos() == p_level(old(self).tokens(), old(self).pos(), 6).1,
            r matches Ok(e) ==> well_nested(e) && level(e) >= 6,
        decreases old(self).measure(), 6nat,
    {
        let mut left = self.factor()?;
        while op_level_of(self.curr.token) == 6
            invariant
                Self::steps(*old(self), *self, true),
                well_nested(left),
                level(left) >= 6,
                p_fold(self.tokens(), self.pos(), 6, view_expr(left)) == p_level(
                    old(self).tokens(),
                    old(self).pos(),
                    6,
                ),
            decreases self.measure(),
        {
            let (op, span) = self.advance();
            let right = self.factor()?;
            left = Expr::Binary { left: Box::new(left), op, right: Box::new(right), span };
        }
        Ok(left)
    }

    fn factor(&mut self) -> (r: Result<Expr, ErrorInfo>)
        requires
            old(self).wf(),
        ensures
            Self::steps(*old(self), *final(self), r is Ok),
            view_res(r) == p_level(old(self).tokens(), old(self).pos(), 7).0,
            r is Ok ==> final(self).pos() == p_level(old(self).tokens(), old(self).pos(), 7).1,
            r matches Ok(e) ==> well_nested(e) && level(e) >= 7,
        decreases old(self).measure(), 5nat,
    {
        assert(p_level(self.tokens(), self.pos(), 8) == p_unary(self.tokens(), self.pos()));
        let mut left = self.unary()?;
        while op_level_of(self.curr.token) == 7
            invariant
                Self::steps(*old(self), *self, true),
                well_nested(left),
                level(left) >= 7,
                p_fold(self.tokens(), self.pos(), 7, view_expr(left)) == p_level(
                    old(self).tokens(),
                    old(self).pos(),
                    7,
                ),
            decreases self.measure(),
        {
            let (op, span) = self.advance();
            assert(p_level(self.tokens(), self.pos(), 8) == p_unary(self.tokens(), self.pos()));
            let right = self.unary()?;
            left = Expr::Binary { left: Box::new(left), op, right: Box::new(right), span };
        }
        Ok(left)
    }

    fn unary(&mut self) -> (r: Result<Expr, ErrorInfo>)
        requires
            old(self).wf(),
        ensures
            Self::steps(*old(self), *final(self), r is Ok),
            view_res(r) == p_unary(old(self).tokens(), old(self).pos()).0,
            r is Ok ==> final(self).pos() == p_unary(old(self).tokens(), old(self).pos()).1,
            r matches Ok(e) ==> well_nested(e) && level(e) >= 8,
        decreases old(self).measure(), 4nat,
    {
        let t = self.curr.token;
        if t == Token::Minus || t == Token::Not || t == Token::Plus {
            let (op, span) = self.advance();
            let right = self.unary()?;
            Ok(Expr::Unary { op, right: Box::new(right), span })
        } else {
            self.call()
        }
    }

    fn call(&mut self) -> (r: Result<Expr, ErrorInfo>)
        requires
            old(self).wf(),
        ensures
            Self::steps(*old(self), *final(self), r is Ok),
            view_res(r) == p_call(old(self).tokens(), old(self).pos()).0,
            r is Ok ==> final(self).pos() == p_call(old(self).tokens(), old(self).pos()).1,
            r matches Ok(e) ==> well_nested(e) && level(e) >= 9,
        decreases old(self).measure(), 3nat,
    {
        let mut expr = self.primary()?;
        loop
            invariant
                Self::steps(*old(self), *self, true),
                well_nested(expr),
                level(expr) >= 9,
                p_postfix(self.tokens(), self.pos(), view_expr(expr)) == p_call(
                    old(self).tokens(),
                    old(self).pos(),
                ),
            ensures
                Self::steps(*old(self), *self, true),
                well_nested(expr),
                level(expr) >= 9,
                p_call(old(self).tokens(), old(self).pos()) == (
                    Ok::<SExpr, ErrorInfo>(view_expr(expr)),
                    self.pos(),
                ),
            decreases self.measure(),
        {
            let ghost m = self.measure();
            let ghost j = self.pos();
            if self.curr.is(Token::LParen) {
                let (_, span) = self.advance();
                let mut args: Vec<Expr> = Vec::new();
                if !self.curr.is(Token::RParen) {
                    let ghost s0 = self.pos();
                    assert(view_exprs(args@) =~= Seq::<SExpr>::empty());
                    loop
                        invariant_except_break
                            p_args(self.tokens(), self.pos(), view_exprs(args@)) == p_args(
                                self.tokens(),
                                s0,
                                Seq::empty(),
                            ),
                        invariant
                            Self::steps(*old(self), *self, true),
                            self.measure() < m,
                            well_nested(expr),
                            level(expr) >= 9,
                            forall|i: int| 0 <= i < args.len() ==> #[trigger] well_nested(args@[i]),
                            j < s0 <= self.pos(),
                            s0 == j + 1,
                            tag(self.tokens(), s0) != Token::RParen,
                            p_postfix(self.tokens(), j, view_expr(expr)) == p_call(
                                old(self).tokens(),
                                old(self).pos(),
                            ),
                            tag(self.tokens(), j) == Token::LParen,
                            span_at(self.tokens(), j) == span,
                            j < self.tokens().len(),
                        ensures
                            Self::steps(*old(self), *self, true),
                            self.measure() < m,
                            well_nested(expr),
                            level(expr) >= 9,
                            forall|i: int| 0 <= i < args.len() ==> #[trigger] well_nested(args@[i]),
                            j < self.pos(),
                            p_args(self.tokens(), s0, Seq::empty()) == (
                                Ok::<Seq<SExpr>, ErrorInfo>(view_exprs(args@)),
                                self.pos(),
                            ),
                            p_postfix(self.tokens(), j, view_expr(expr)) == p_call(
                                old(self).tokens(),
                                old(self).pos(),
                            ),
                            tag(self.tokens(), j) == Token::LParen,
                            tag(self.tokens(), j + 1) != Token::RParen,
                            span_at(self.tokens(), j) == span,
                            j < self.tokens().len(),
                        decreases self.measure(),
                    {
                        let ghost k = self.pos();
                        let ghost ts = self.tokens();
                        let arg = self.expression()?;
                        let ghost before = args@;
                        args.push(arg);
                        assert(view_exprs(args@) =~= view_exprs(before).push(view_expr(arg)));
                        if !self.curr.is(Token::Comma) {
                            assert(p_args(ts, k, view_exprs(before)) == (
                                Ok::<Seq<SExpr>, ErrorInfo>(view_exprs(args@)),
                                self.pos(),
                            ));
                            break;
                        }
                        assert(p_args(ts, k, view_exprs(before)) == p_args(
                            ts,
                            self.pos() + 1,
                            view_exprs(args@),
                        ));
                        self.advance();
                    }
                }
                let ghost ts = self.tokens();
                let ghost arg_spec = if tag(ts, j + 1) == Token::RParen {
                    (Ok::<Seq<SExpr>, ErrorInfo>(Seq::<SExpr>::empty()), j + 1)
                } else {
                    p_args(ts, j + 1, Seq::empty())
                };
                assert(view_exprs(args@) =~= Seq::<SExpr>::empty() || !(tag(ts, j + 1) == Token::RParen));
                assert(arg_spec == (Ok::<Seq<SExpr>, ErrorInfo>(view_exprs(args@)), self.pos()));
                let ghost old_expr = expr;
                self.should_be(Token::RParen)?;
                let ghost a = args;
                expr = Expr::Call { callee: Box::new(expr), args, span };
                assert(view_expr(expr) == SExpr::Call(Box::new(view_expr(old_expr)), view_exprs(a@), span)) by {
                    assert(view_expr(expr)->Call_1 =~= view_exprs(a@));
                }
                assert(expr->Call_args == a);
                assert(forall|i: int| 0 <= i < a.len() ==> well_nested(a@[i]));
            } else if self.curr.is(Token::Dot) {
                self.advance();
                let (name, span) = self.get_identifier()?;
                expr = Expr::Property { object: Box::new(expr), name, span };
            } else {
                assert(tag(self.tokens(), self.pos()) == self.curr.token);
                assert(p_postfix(self.tokens(), self.pos(), view_expr(expr)) == (
                    Ok::<SExpr, ErrorInfo>(view_expr(expr)),
                    self.pos(),
                ));
                break;
            }
        }
        Ok(expr)
    }

    fn primary(&mut self) -> (r: Result<Expr, ErrorInfo>)
        requires
            old(self).wf(),
        ensures
            Self::steps(*old(self), *final(self), r is Ok),
            view_res(r) == p_primary(old(self).tokens(), old(self).pos()).0,
            r is Ok ==> final(self).pos() == p_primary(old(self).tokens(), old(self).pos()).1,
            !starts_primary(tag(old(self).tokens(), old(self).pos())) ==> final(self).pos()
                == old(self).pos(),
            r matches Ok(e) ==> well_nested(e) && level(e) >= 10,
        decreases old(self).measure(), 2nat,
    {
        let span = self.curr.span;
        match self.curr.token {
            Token::True => {
                self.advance();
                Ok(Expr::Literal { value: LiteralType::Boolean(true), span })
            },
            Token::False => {
                self.advance();
                Ok(Expr::Literal { value: LiteralType::Boolean(false), span })
            },
            Token::Number => {
                let value = LiteralType::Number(self.curr.value);
                self.advance();
                Ok(Expr::Literal { value, span })
            },
            Token::Str => {
                let value = LiteralType::Str(self.curr.lexeme.clone());
                self.advance();
                Ok(Expr::Literal { value, span })
            },
            Token::Identifier => {
                let name = self.curr.lexeme.clone();
                self.advance();
                Ok(Expr::Variable { name, span })
            },
            Token::LParen => {
                self.advance();
                let expr = Box::new(self.expression()?);
                self.should_be(Token::RParen)?;
                Ok(Expr::Grouping { expr, span })
            },
            Token::Super => {
                self.advance();
                self.should_be(Token::Dot)?;
                let (name, span) = self.get_identifier()?;
                Ok(Expr::Super { name, span })
            },
            Token::This => {
                let name = String::from_str("this");
                self.advance();
                Ok(Expr::Variable { name, span })
            },
            _ => Err(ErrorInfo::new_with_span(Error::ExpectedExpression, span)),
        }
    }
}

impl Parser {
    /// Parses tokens up to the end of input into a program, or returns the first error.
    /// The result is a function of the token stream: it is what the grammar
    /// `p_program` gives for the tokens from the current position.
    #[verifier::rlimit(60)]
    pub fn parse_program(&mut self) -> (r: Result<Program, ErrorInfo>)
        requires
            old(self).wf(),
        ensures
            final(self).wf(),
            final(self).tokens() == old(self).tokens(),
            r is Ok ==> final(self).current().token == Token::Eof,
            old(self).current().token == Token::Eof ==> (r matches Ok(p) && p.stmt.len() == 0),
            r matches Ok(p) ==> forall|i: int| 0 <= i < p.stmt.len() ==> #[trigger] stmt_ok(p.stmt@[i]),
            r matches Ok(p) ==> p_program(old(self).tokens(), old(self).pos(), Seq::empty()) == Ok::<
                Seq<SStmt>,
                ErrorInfo,
            >(view_stmts(p.stmt@)),
            r matches Err(x) ==> p_program(old(self).tokens(), old(self).pos(), Seq::empty()) == Err::<
                Seq<SStmt>,
                ErrorInfo,
            >(x),
    {
        let ghost ts = self.tokens();
        let ghost i0 = self.pos();
        let mut stmt: Vec<Stmt> = Vec::new();
        assert(view_stmts(stmt@) =~= Seq::<SStmt>::empty());
        while !self.curr.is(Token::Eof)
            invariant
                self.wf(),
                self.tokens() == ts,
                ts == old(self).tokens(),
                i0 == old(self).pos(),
                forall|i: int| 0 <= i < stmt.len() ==> #[trigger] stmt_ok(stmt@[i]),
                old(self).curr.token == Token::Eof ==> stmt.len() == 0 && self.curr.token
                    == Token::Eof,
                p_program(ts, self.pos(), view_stmts(stmt@)) == p_program(ts, i0, Seq::empty()),
            decreases self.measure(),
        {
            let ghost before = stmt@;
            let s = self.declaration()?;
            stmt.push(s);
            assert(view_stmts(stmt@) =~= view_stmts(before).push(view_stmt(s)));
        }
        Ok(Program::new(stmt))
    }

    #[verifier::rlimit(60)]
    fn declaration(&mut self) -> (r: Result<Stmt, ErrorInfo>)
        requires
            old(self).wf(),
        ensures
            Self::steps(*old(self), *final(self), r is Ok),
            view_sres(r) == p_decl(old(self).tokens(), old(self).pos()).0,
            r is Ok ==> final(self).pos() == p_decl(old(self).tokens(), old(self).pos()).1,
            r matches Ok(s) ==> stmt_ok(s),
        decreases old(self).measure(), 30nat,
    {
        let t = self.curr.token;
        if t == Token::Let || t == Token::Const {
            self.let_declaration()
        } else if t == Token::Class {
            self.class_declaration()
        } else if t == Token::Function {
            self.advance();
            self.function_declaration()
        } else {
            self.statement()
        }
    }

    #[verifier::rlimit(60)]
    fn let_declaration(&mut self) -> (r: Result<Stmt, ErrorInfo>)
        requires
            old(self).wf(),
            old(self).curr.token == Token::Let || old(self).curr.token == Token::Const,
        ensures
            Self::steps(*old(self), *final(self), r is Ok),
            view_sres(r) == p_let(old(self).tokens(), old(self).pos()).0,
            r is Ok ==> final(self).pos() == p_let(old(self).tokens(), old(self).pos()).1,
            r matches Ok(s) ==> stmt_ok(s),
            r matches Ok(Stmt::Let { is_const, .. }) ==> is_const == (old(self).curr.token
                == Token::Const),
            r is Ok ==> r->Ok_0 is Let,
        decreases old(self).measure(), 27nat,
    {
        let is_const = self.curr.is(Token::Const);
        self.advance();
        let (name, span) = self.get_identifier()?;
        let mut value: Option<Expr> = None;
        if self.curr.is(Token::Assign) {
            self.advance();
            value = Some(self.expression()?);
        }
        self.should_be(Token::Semicolon)?;
        Ok(Stmt::Let { name, value, is_const, span })
    }

    #[verifier::rlimit(60)]
    fn class_declaration(&mut self) -> (r: Result<Stmt, ErrorInfo>)
        requires
            old(self).wf(),
            old(self).curr.token == Token::Class,
        ensures
            Self::steps(*old(self), *final(self), r is Ok),
            view_sres(r) == p_class(old(self).tokens(), old(self).pos()).0,
            r is Ok ==> final(self).pos() == p_class(old(self).tokens(), old(self).pos()).1,
            r matches Ok(s) ==> stmt_ok(s),
            r is Ok ==> r->Ok_0 is Class,
        decreases old(self).measure(), 29nat,
    {
        let ghost ts = self.tokens();
        let ghost i0 = self.pos();
        self.advance();
        let (name, span) = self.get_identifier()?;
        let mut super_class: Option<String> = None;
        if self.curr.is(Token::Lt) {
            self.advance();
            let (super_class_name, super_span) = self.get_identifier()?;
            super_class = Some(check_superclass(&name, super_class_name, super_span)?);
        }
        self.should_be(Token::LCurly)?;
        let ghost k0 = self.pos();
        let ghost sup = view_opt_name(super_class);
        assert(p_class(ts, i0) == (match p_methods(ts, k0, Seq::empty()) {
            (Ok(ms), m) => end_with(ts, m, Token::RCurly, SStmt::Class(name@, sup, ms, span)),
            (Err(x), m) => (Err::<SStmt, ErrorInfo>(x), m),
        }));
        let mut methods: Vec<Stmt> = Vec::new();
        assert(view_stmts(methods@) =~= Seq::<SStmt>::empty());
        while !self.curr.is(Token::RCurly) && !self.curr.is(Token::Eof)
            invariant
                Self::steps(*old(self), *self, true),
                ts == old(self).tokens(),
                i0 == old(self).pos(),
                forall|i: int| 0 <= i < methods.len() ==> #[trigger] stmt_ok(methods@[i]),
                super_class matches Some(sc) ==> sc@ != name@,
                sup == view_opt_name(super_class),
                p_class(ts, i0) == (match p_methods(ts, k0, Seq::empty()) {
                    (Ok(ms), m) => end_with(ts, m, Token::RCurly, SStmt::Class(name@, sup, ms, span)),
                    (Err(x), m) => (Err::<SStmt, ErrorInfo>(x), m),
                }),
                p_methods(ts, self.pos(), view_stmts(methods@)) == p_methods(ts, k0, Seq::empty()),
            decreases self.measure(),
        {
            let ghost before = methods@;
            let f = self.function_declaration()?;
            methods.push(f);
            assert(view_stmts(methods@) =~= view_stmts(before).push(view_stmt(f)));
        }
        self.should_be(Token::RCurly)?;
        let ghost ms = methods;
        let ghost nm = name;
        let ghost sc = super_class;
        let c = Stmt::Class { name, super_class, methods, span };
        assert(c->Class_methods == ms);
        assert(c->Class_name == nm && c->Class_super_class == sc);
        assert(forall|i: int| 0 <= i < ms.len() ==> stmt_ok(ms@[i]));
        assert(stmt_ok(c));
        assert(view_stmt(c)->Class_2 =~= view_stmts(ms@));
        Ok(c)
    }

    #[verifier::rlimit(60)]
    fn function_declaration(&mut self) -> (r: Result<Stmt, ErrorInfo>)
        requires
            old(self).wf(),
        ensures
            Self::steps(*old(self), *final(self), r is Ok),
            view_sres(r) == p_func(old(self).tokens(), old(self).pos()).0,
            r is Ok ==> final(self).pos() == p_func(old(self).tokens(), old(self).pos()).1,
            r matches Ok(s) ==> stmt_ok(s),
            r is Ok ==> r->Ok_0 is Function,
        decreases old(self).measure(), 28nat,
    {
        let ghost ts = self.tokens();
        let ghost i0 = self.pos();
        let (name, span) = self.get_identifier()?;
        self.should_be(Token::LParen)?;
        let mut params: Vec<String> = Vec::new();
        let ghost s0 = self.pos();
        assert(view_names(params@) =~= Seq::<Seq<char>>::empty());
        if !self.curr.is(Token::RParen) {
            let (param, _) = self.get_identifier()?;
            params.push(param);
            assert(view_names(params@) =~= seq![param@]);
            #[verifier::loop_isolation(false)]
            while self.curr.is(Token::Comma)
                invariant
                    Self::steps(*old(self), *self, true),
                    s0 < self.pos(),
                    p_params(ts, s0, Seq::empty()) == (if tag(ts, self.pos()) == Token::Comma {
                        p_params(ts, self.pos() + 1, view_names(params@))
                    } else {
                        (Ok(view_names(params@)), self.pos())
                    }),
                decreases self.measure(),
            {
                self.advance();
                let ghost before = params@;
                let (param, _) = self.get_identifier()?;
                params.push(param);
                assert(view_names(params@) =~= view_names(before).push(param@));
            }
        }
        self.should_be(Token::RParen)?;
        let body = self.block_statement()?;
        let ghost ps = params;
        let f = Stmt::Function { name, params, body: Box::new(body), span };
        assert(view_stmt(f)->Function_1 == view_names(ps@));
        Ok(f)
    }

    #[verifier::rlimit(60)]
    fn statement(&mut self) -> (r: Result<Stmt, ErrorInfo>)
        requires
            old(self).wf(),
        ensures
            Self::steps(*old(self), *final(self), r is Ok),
            view_sres(r) == p_stmt(old(self).tokens(), old(self).pos()).0,
            r is Ok ==> final(self).pos() == p_stmt(old(self).tokens(), old(self).pos()).1,
            r matches Ok(s) ==> stmt_ok(s),
        decreases old(self).measure(), 26nat,
    {
        let t = self.curr.token;
        if t == Token::Print {
            self.print_statement()
        } else if t == Token::If {
            self.if_statement()
        } else if t == Token::While {
            self.while_statement()
        } else if t == Token::For {
            self.for_statement()
        } else if t == Token::Return {
            self.return_statement()
        } else if t == Token::LCurly {
            self.block_statement()
        } else {
            self.expression_statement()
        }
    }

    fn expression_statement(&mut self) -> (r: Result<Stmt, ErrorInfo>)
        requires
            old(self).wf(),
        ensures
            Self::steps(*old(self), *final(self), r is Ok),
            view_sres(r) == p_expr_stmt(old(self).tokens(), old(self).pos()).0,
            r is Ok ==> final(self).pos() == p_expr_stmt(old(self).tokens(), old(self).pos()).1,
            r matches Ok(s) ==> stmt_ok(s),
            r is Ok ==> r->Ok_0 is Expr,
        decreases old(self).measure(), 25nat,
    {
        let span = self.curr.span;
        let expr = self.expression()?;
        self.should_be(Token::Semicolon)?;
        Ok(Stmt::Expr { expr, span })
    }

    fn print_statement(&mut self) -> (r: Result<Stmt, ErrorInfo>)
        requires
            old(self).wf(),
            old(self).curr.token == Token::Print,
        ensures
            Self::steps(*old(self), *final(self), r is Ok),
            view_sres(r) == p_print(old(self).tokens(), old(self).pos()).0,
            r is Ok ==> final(self).pos() == p_print(old(self).tokens(), old(self).pos()).1,
            r matches Ok(s) ==> stmt_ok(s),
            r is Ok ==> r->Ok_0 is Print,
        decreases old(self).measure(), 25nat,
    {
        let (_, span) = self.advance();
        let expr = self.expression()?;
        self.should_be(Token::Semicolon)?;
        Ok(Stmt::Print { expr, span })
    }

    fn return_statement(&mut self) -> (r: Result<Stmt, ErrorInfo>)
        requires
            old(self).wf(),
            old(self).curr.token == Token::Return,
        ensures
            Self::steps(*old(self), *final(self), r is Ok),
            view_sres(r) == p_return(old(self).tokens(), old(self).pos()).0,
            r is Ok ==> final(self).pos() == p_return(old(self).tokens(), old(self).pos()).1,
            r matches Ok(s) ==> stmt_ok(s),
            r is Ok ==> r->Ok_0 is Return,
        decreases old(self).measure(), 25nat,
    {
        let (_, span) = self.advance();
        let mut value: Option<Expr> = None;
        if !self.curr.is(Token::Semicolon) {
            value = Some(self.expression()?);
        }
        self.should_be(Token::Semicolon)?;
        Ok(Stmt::Return { value, span })
    }

    /// The initializer of a `for`: nothing before `;`, a `let` declaration, or an
    /// expression statement.
    fn for_initializer(&mut self) -> (r: Result<Option<Box<Stmt>>, ErrorInfo>)
        requires
            old(self).wf(),
        ensures
            Self::steps(*old(self), *final(self), r is Ok),
            r matches Ok(o) ==> p_for_init(old(self).tokens(), old(self).pos()).0 == Ok::<
                Option<Box<SStmt>>,
                ErrorInfo,
            >(
                match o {
                    Some(x) => Some(Box::new(view_stmt(*x))),
                    None => None,
                },
            ),
            r matches Err(x) ==> p_for_init(old(self).tokens(), old(self).pos()).0 == Err::<
                Option<Box<SStmt>>,
                ErrorInfo,
            >(x),
            r is Ok ==> final(self).pos() == p_for_init(old(self).tokens(), old(self).pos()).1,
            r matches Ok(Some(x)) ==> stmt_ok(*x),
        decreases old(self).measure(), 28nat,
    {
        if self.curr.is(Token::Semicolon) {
            self.advance();
            Ok(None)
        } else if self.curr.is(Token::Let) {
            Ok(Some(Box::new(self.let_declaration()?)))
        } else {
            Ok(Some(Box::new(self.expression_statement()?)))
        }
    }

    /// An expression, or nothing when the current token is `stop`.
    fn optional_expression(&mut self, stop: Token) -> (r: Result<Option<Expr>, ErrorInfo>)
        requires
            old(self).wf(),
        ensures
            Self::steps(*old(self), *final(self), r matches Ok(Some(_))),
            r matches Ok(o) ==> p_opt_expr(old(self).tokens(), old(self).pos(), stop).0 == Ok::<
                Option<SExpr>,
                ErrorInfo,
            >(view_opt(o)),
            r matches Err(x) ==> p_opt_expr(old(self).tokens(), old(self).pos(), stop).0 == Err::<
                Option<SExpr>,
                ErrorInfo,
            >(x),
            r is Ok ==> final(self).pos() == p_opt_expr(old(self).tokens(), old(self).pos(), stop).1,
            r matches Ok(Some(e)) ==> well_nested(e),
        decreases old(self).measure(), 28nat,
    {
        if self.curr.is(stop) {
            Ok(None)
        } else {
            Ok(Some(self.expression()?))
        }
    }

    #[verifier::rlimit(60)]
    fn for_statement(&mut self) -> (r: Result<Stmt, ErrorInfo>)
        requires
            old(self).wf(),
            old(self).curr.token == Token::For,
        ensures
            Self::steps(*old(self), *final(self), r is Ok),
            view_sres(r) == p_for(old(self).tokens(), old(self).pos()).0,
            r is Ok ==> final(self).pos() == p_for(old(self).tokens(), old(self).pos()).1,
            r matches Ok(s) ==> stmt_ok(s),
            r is Ok ==> r->Ok_0 is For,
        decreases old(self).measure(), 25nat,
    {
        let (_, span) = self.advance();
        self.should_be(Token::LParen)?;
        let initializer = self.for_initializer()?;
        let condition = self.optional_expression(Token::Semicolon)?;
        self.should_be(Token::Semicolon)?;
        let increment = self.optional_expression(Token::RParen)?;
        self.should_be(Token::RParen)?;
        let body = self.statement()?;
        Ok(Stmt::For { initializer, condition, increment, body: Box::new(body), span })
    }

    #[verifier::rlimit(60)]
    fn if_statement(&mut self) -> (r: Result<Stmt, ErrorInfo>)
        requires
            old(self).wf(),
            old(self).curr.token == Token::If,
        ensures
            Self::steps(*old(self), *final(self), r is Ok),
            view_sres(r) == p_if(old(self).tokens(), old(self).pos()).0,
            r is Ok ==> final(self).pos() == p_if(old(self).tokens(), old(self).pos()).1,
            r matches Ok(s) ==> stmt_ok(s),
            r is Ok ==> r->Ok_0 is If,
        decreases old(self).measure(), 25nat,
    {
        let (_, span) = self.advance();
        self.should_be(Token::LParen)?;
        let condition = self.expression()?;
        self.should_be(Token::RParen)?;
        let truthy = Box::new(self.statement()?);
        let mut falsy: Option<Box<Stmt>> = None;
        if self.curr.is(Token::Else) {
            self.advance();
            falsy = Some(Box::new(self.statement()?));
        }
        Ok(Stmt::If { condition, truthy, falsy, span })
    }

    #[verifier::rlimit(40)]
    fn while_statement(&mut self) -> (r: Result<Stmt, ErrorInfo>)
        requires
            old(self).wf(),
            old(self).curr.token == Token::While,
        ensures
            Self::steps(*old(self), *final(self), r is Ok),
            view_sres(r) == p_while(old(self).tokens(), old(self).pos()).0,
            r is Ok ==> final(self).pos() == p_while(old(self).tokens(), old(self).pos()).1,
            r matches Ok(s) ==> stmt_ok(s),
            r is Ok ==> r->Ok_0 is While,
        decreases old(self).measure(), 25nat,
    {
        let (_, span) = self.advance();
        self.should_be(Token::LParen)?;
        let condition = self.expression()?;
        self.should_be(Token::RParen)?;
        let body = Box::new(self.statement()?);
        Ok(Stmt::While { condition, body, span })
    }

    #[verifier::rlimit(60)]
    fn block_statement(&mut self) -> (r: Result<Stmt, ErrorInfo>)
        requires
            old(self).wf(),
        ensures
            Self::steps(*old(self), *final(self), r is Ok),
            view_sres(r) == p_block(old(self).tokens(), old(self).pos()).0,
            r is Ok ==> final(self).pos() == p_block(old(self).tokens(), old(self).pos()).1,
            r matches Ok(s) ==> stmt_ok(s),
            r is Ok ==> r->Ok_0 is Block,
        decreases old(self).measure(), 25nat,
    {
        let ghost ts = self.tokens();
        let ghost i0 = self.pos();
        let span = self.should_be(Token::LCurly)?;
        assert(p_block(ts, i0) == (match p_decls(ts, i0 + 1, Seq::empty()) {
            (Ok(ss), k) => end_with(ts, k, Token::RCurly, SStmt::Block(ss, span)),
            (Err(x), k) => (Err::<SStmt, ErrorInfo>(x), k),
        }));
        let mut stmt: Vec<Stmt> = Vec::new();
        assert(view_stmts(stmt@) =~= Seq::<SStmt>::empty());
        while !self.curr.is(Token::RCurly) && !self.curr.is(Token::Eof)
            invariant
                Self::steps(*old(self), *self, true),
                ts == old(self).tokens(),
                i0 == old(self).pos(),
                forall|i: int| 0 <= i < stmt.len() ==> #[trigger] stmt_ok(stmt@[i]),
                p_block(ts, i0) == (match p_decls(ts, i0 + 1, Seq::empty()) {
                    (Ok(ss), k) => end_with(ts, k, Token::RCurly, SStmt::Block(ss, span)),
                    (Err(x), k) => (Err::<SStmt, ErrorInfo>(x), k),
                }),
                p_decls(ts, self.pos(), view_stmts(stmt@)) == p_decls(ts, i0 + 1, Seq::empty()),
            decreases self.measure(),
        {
            let ghost before = stmt@;
            let s = self.declaration()?;
            stmt.push(s);
            assert(view_stmts(stmt@) =~= view_stmts(before).push(view_stmt(s)));
        }
        self.should_be(Token::RCurly)?;
        let ghost ss = stmt;
        let b = Stmt::Block { stmt, span };
        assert(b->Block_stmt == ss);
        assert(view_stmt(b) == SStmt::Block(view_stmts(ss@), span)) by {
            assert(view_stmt(b)->Block_0 =~= view_stmts(ss@));
        }
        assert(forall|i: int| 0 <= i < ss.len() ==> stmt_ok(ss@[i]));
        assert(stmt_ok(b));
        Ok(b)
    }
}

} // verus!
