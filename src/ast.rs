use vstd::prelude::*;
use crate::token::{Span, Token};

verus! {

/// The value of a literal in the source.
#[derive(Clone, Debug)]
pub enum LiteralType {
    Boolean(bool),
    Number(u64),
    Str(String),
}

/// A runtime value that evaluating an expression yields.
#[derive(Clone, Debug)]
pub enum Object {
    Nil,
    Boolean(bool),
    Number(u64),
    Str(String),
}

/// An expression node; every node owns its children and carries its span.
#[derive(Debug)]
pub enum Expr {
    Literal { value: LiteralType, span: Span },
    Variable { name: String, span: Span },
    Grouping { expr: Box<Expr>, span: Span },
    Unary { op: Token, right: Box<Expr>, span: Span },
    Binary { left: Box<Expr>, op: Token, right: Box<Expr>, span: Span },
    Logical { left: Box<Expr>, op: Token, right: Box<Expr>, span: Span },
    Assign { name: String, value: Box<Expr>, span: Span },
    SetProperty { object: Box<Expr>, name: String, value: Box<Expr>, span: Span },
    Property { object: Box<Expr>, name: String, span: Span },
    Call { callee: Box<Expr>, args: Vec<Expr>, span: Span },
    Super { name: String, span: Span },
}

/// A statement node.
#[derive(Debug)]
pub enum Stmt {
    Expr { expr: Expr, span: Span },
    Print { expr: Expr, span: Span },
    Block { stmt: Vec<Stmt>, span: Span },
    Let { name: String, value: Option<Expr>, is_const: bool, span: Span },
    If { condition: Expr, truthy: Box<Stmt>, falsy: Option<Box<Stmt>>, span: Span },
    While { condition: Expr, body: Box<Stmt>, span: Span },
    For {
        initializer: Option<Box<Stmt>>,
        condition: Option<Expr>,
        increment: Option<Expr>,
        body: Box<Stmt>,
        span: Span,
    },
    Function { name: String, params: Vec<String>, body: Box<Stmt>, span: Span },
    Return { value: Option<Expr>, span: Span },
    Class { name: String, super_class: Option<String>, methods: Vec<Stmt>, span: Span },
    Break { span: Span },
    Continue { span: Span },
}

/// The ordered top-level statements of a parsed source.
#[derive(Debug)]
pub struct Program {
    pub stmt: Vec<Stmt>,
}

impl Program {
    pub fn new(stmt: Vec<Stmt>) -> (r: Program)
        ensures
            r.stmt@ == stmt@,
    {
        Program { stmt }
    }

    /// The program in parenthesized prefix form.
    pub fn render(&self) -> String {
        let mut out = String::from_str("(");
        let mut i: usize = 0;
        while i < self.stmt.len()
            decreases self.stmt.len() - i,
        {
            render_stmt(&self.stmt[i], &mut out);
            i = i + 1;
        }
        out.append(")");
        out
    }
}

fn render_number(n: u64, out: &mut String)
    decreases n,
{
    if n >= 10 {
        render_number(n / 10, out);
    }
    let d = n % 10;
    let s = if d == 0 { "0" } else if d == 1 { "1" } else if d == 2 { "2" } else if d == 3 {
        "3"
    } else if d == 4 { "4" } else if d == 5 { "5" } else if d == 6 { "6" } else if d == 7 {
        "7"
    } else if d == 8 { "8" } else { "9" };
    out.append(s);
}

/// The source text of an operator token.
pub fn op_text(op: Token) -> &'static str {
    match op {
        Token::Eq => "==",
        Token::Ne => "!=",
        Token::Lt => "<",
        Token::Lte => "<=",
        Token::Gt => ">",
        Token::Gte => ">=",
        Token::Plus => "+",
        Token::Minus => "-",
        Token::Times => "*",
        Token::Divide => "/",
        Token::Mod => "%",
        Token::Not => "!",
        Token::LOr => "||",
        Token::LAnd => "&&",
        Token::Or => "|",
        Token::And => "&",
        Token::Xor => "^",
        _ => "?",
    }
}

pub fn render_expr(e: &Expr, out: &mut String)
    decreases e,
{
    match e {
        Expr::Literal { value, .. } => match value {
            LiteralType::Boolean(b) => {
                out.append(if *b { "true" } else { "false" });
            },
            LiteralType::Number(n) => render_number(*n, out),
            LiteralType::Str(s) => out.append(s.as_str()),
        },
        Expr::Variable { name, .. } => out.append(name.as_str()),
        Expr::Grouping { expr, .. } => render_expr(expr, out),
        Expr::Unary { op, right, .. } => {
            out.append("(");
            out.append(op_text(*op));
            out.append(" ");
            render_expr(right, out);
            out.append(")");
        },
        Expr::Binary { left, op, right, .. } | Expr::Logical { left, op, right, .. } => {
            out.append("(");
            out.append(op_text(*op));
            out.append(" ");
            render_expr(left, out);
            out.append(" ");
            render_expr(right, out);
            out.append(")");
        },
        Expr::Assign { name, value, .. } => {
            out.append("(= ");
            out.append(name.as_str());
            out.append(" ");
            render_expr(value, out);
            out.append(")");
        },
        Expr::SetProperty { object, name, value, .. } => {
            out.append("(= (. ");
            render_expr(object, out);
            out.append(" ");
            out.append(name.as_str());
            out.append(") ");
            render_expr(value, out);
            out.append(")");
        },
        Expr::Property { object, name, .. } => {
            out.append("(. ");
            render_expr(object, out);
            out.append(" ");
            out.append(name.as_str());
            out.append(")");
        },
        Expr::Call { callee, args, .. } => {
            out.append("(call ");
            render_expr(callee, out);
            let mut i: usize = 0;
            #[verifier::loop_isolation(false)]
            while i < args.len()
                decreases args.len() - i,
            {
                out.append(" ");
                proof {
                    assert(decreases_to!(*e => *args));
                    assert(decreases_to!(*args => args@));
                    assert(decreases_to!(args@ => args@[i as int]));
                }
                render_expr(&args[i], out);
                i = i + 1;
            }
            out.append(")");
        },
        Expr::Super { name, .. } => {
            out.append("(super ");
            out.append(name.as_str());
            out.append(")");
        },
    }
}

fn render_opt_expr(e: &Option<Expr>, out: &mut String) {
    match e {
        Some(x) => render_expr(x, out),
        None => out.append("_"),
    }
}

pub fn render_stmt(s: &Stmt, out: &mut String)
    decreases s,
{
    match s {
        Stmt::Expr { expr, .. } => render_expr(expr, out),
        Stmt::Print { expr, .. } => {
            out.append("(print ");
            render_expr(expr, out);
            out.append(")");
        },
        Stmt::Block { stmt, .. } => {
            out.append("(");
            let mut i: usize = 0;
            #[verifier::loop_isolation(false)]
            while i < stmt.len()
                decreases stmt.len() - i,
            {
                proof {
                    assert(decreases_to!(*s => *stmt));
                    assert(decreases_to!(*stmt => stmt@));
                    assert(decreases_to!(stmt@ => stmt@[i as int]));
                }
                render_stmt(&stmt[i], out);
                i = i + 1;
            }
            out.append(")");
        },
        Stmt::Let { name, value, is_const, .. } => {
            out.append(if *is_const { "(const " } else { "(let " });
            out.append(name.as_str());
            if let Some(v) = value {
                out.append(" ");
                render_expr(v, out);
            }
            out.append(")");
        },
        Stmt::If { condition, truthy, falsy, .. } => {
            out.append("(if ");
            render_expr(condition, out);
            out.append(" then ");
            render_stmt(truthy, out);
            if let Some(f) = falsy {
                out.append(" else ");
                render_stmt(f, out);
            }
            out.append(")");
        },
        Stmt::While { condition, body, .. } => {
            out.append("(while ");
            render_expr(condition, out);
            out.append(" ");
            render_stmt(body, out);
            out.append(")");
        },
        Stmt::For { initializer, condition, increment, body, .. } => {
            out.append("(for ");
            match initializer {
                Some(i) => render_stmt(i, out),
                None => out.append("_"),
            }
            out.append(" ");
            render_opt_expr(condition, out);
            out.append(" ");
            render_opt_expr(increment, out);
            out.append(" ");
            render_stmt(body, out);
            out.append(")");
        },
        Stmt::Function { name, params, body, .. } => {
            out.append("(fun ");
            out.append(name.as_str());
            out.append(" (");
            let mut i: usize = 0;
            while i < params.len()
                decreases params.len() - i,
            {
                if i > 0 {
                    out.append(" ");
                }
                out.append(params[i].as_str());
                i = i + 1;
            }
            out.append(") ");
            render_stmt(body, out);
            out.append(")");
        },
        Stmt::Return { value, .. } => {
            out.append("(return ");
            render_opt_expr(value, out);
            out.append(")");
        },
        Stmt::Class { name, super_class, methods, .. } => {
            out.append("(class ");
            out.append(name.as_str());
            if let Some(sc) = super_class {
                out.append(" < ");
                out.append(sc.as_str());
            }
            let mut i: usize = 0;
            #[verifier::loop_isolation(false)]
            while i < methods.len()
                decreases methods.len() - i,
            {
                out.append(" ");
                proof {
                    assert(decreases_to!(*s => *methods));
                    assert(decreases_to!(*methods => methods@));
                    assert(decreases_to!(methods@ => methods@[i as int]));
                }
                render_stmt(&methods[i], out);
                i = i + 1;
            }
            out.append(")");
        },
        Stmt::Break { .. } => out.append("(break)"),
        Stmt::Continue { .. } => out.append("(continue)"),
    }
}

} // verus!
