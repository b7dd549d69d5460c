pub mod token;
pub mod error;
pub mod ast;
pub mod lexer;
pub mod prec;
pub mod grammar;
pub mod parser;
pub mod expr_visitor;
pub mod stmt_visitor;

pub use ast::{Expr, LiteralType, Object, Program, Stmt};
pub use error::{Error, ErrorInfo};
pub use lexer::Lexer;
pub use parser::Parser;
pub use token::{Precedence, Span, Token, TokenInfo};
