use vstd::prelude::*;
use crate::ast::{Expr, Stmt};
use crate::token::Token;

verus! {

/// The grammar level at which a binary or logical operator folds, weakest first:
/// `||` 2, `&&` 3, equality 4, comparison 5, additive and bitwise 6, multiplicative 7.
pub open spec fn op_level(op: Token) -> nat {
    match op {
        Token::LOr => 2,
        Token::LAnd => 3,
        Token::Eq | Token::Ne => 4,
        Token::Lt | Token::Lte | Token::Gt | Token::Gte => 5,
        Token::Plus | Token::Minus | Token::Or | Token::And | Token::Xor => 6,
        Token::Times | Token::Divide => 7,
        _ => 0,
    }
}

/// The loosest grammar level whose production can yield this node:
/// assignment 1, operators by `op_level`, unary 8, postfix 9, primary 10.
pub open spec fn level(e: Expr) -> nat {
    match e {
        Expr::Assign { .. } | Expr::SetProperty { .. } => 1,
        Expr::Binary { op, .. } | Expr::Logical { op, .. } => op_level(op),
        Expr::Unary { .. } => 8,
        Expr::Call { .. } | Expr::Property { .. } => 9,
        _ => 10,
    }
}

/// Whether an operator is one of the logical or comparison operators, which build
/// `Logical` nodes.
pub open spec fn is_logical_op(op: Token) -> bool {
    2 <= op_level(op) <= 5
}

/// Whether an operator builds `Binary` nodes.
pub open spec fn is_binary_op(op: Token) -> bool {
    6 <= op_level(op) <= 7
}

/// Whether a tree has the shape that precedence climbing gives: every operator node
/// has a left operand of its own level or tighter and a right operand strictly
/// tighter (so chains of one level lean left), unary operands are unary or tighter,
/// assignment values are free of assignments, and postfix nodes apply to postfix
/// or primary expressions.
pub open spec fn well_nested(e: Expr) -> bool
    decreases e,
{
    match e {
        Expr::Literal { .. } | Expr::Variable { .. } | Expr::Super { .. } => true,
        Expr::Grouping { expr, .. } => well_nested(*expr),
        Expr::Unary { op, right, .. } => (op == Token::Minus || op == Token::Plus || op == Token::Not)
            && level(*right) >= 8 && well_nested(*right),
        Expr::Binary { left, op, right, .. } => is_binary_op(op)
            && level(*left) >= op_level(op) && level(*right) > op_level(op)
            && well_nested(*left) && well_nested(*right),
        Expr::Logical { left, op, right, .. } => is_logical_op(op)
            && level(*left) >= op_level(op) && level(*right) > op_level(op)
            && well_nested(*left) && well_nested(*right),
        Expr::Assign { value, .. } => level(*value) >= 2 && well_nested(*value),
        Expr::SetProperty { object, value, .. } => level(*object) >= 9 && well_nested(*object)
            && level(*value) >= 2 && well_nested(*value),
        Expr::Property { object, .. } => level(*object) >= 9 && well_nested(*object),
        Expr::Call { callee, args, .. } => level(*callee) >= 9 && well_nested(*callee)
            && forall|i: int| 0 <= i < args.len() ==> #[trigger] well_nested(args@[i]),
    }
}

/// Whether an optional expression is absent or well nested.
pub open spec fn opt_ok(e: Option<Expr>) -> bool {
    match e {
        Some(x) => well_nested(x),
        None => true,
    }
}

/// Whether a statement meets the invariants that parsing establishes: every
/// expression in it is well nested, and no class in it names itself as its superclass.
pub open spec fn stmt_ok(s: Stmt) -> bool
    decreases s,
{
    match s {
        Stmt::Expr { expr, .. } | Stmt::Print { expr, .. } => well_nested(expr),
        Stmt::Block { stmt, .. } => forall|i: int| 0 <= i < stmt.len() ==> #[trigger] stmt_ok(stmt@[i]),
        Stmt::Let { value, .. } => opt_ok(value),
        Stmt::If { condition, truthy, falsy, .. } => well_nested(condition) && stmt_ok(*truthy)
            && (match falsy {
            Some(f) => stmt_ok(*f),
            None => true,
        }),
        Stmt::While { condition, body, .. } => well_nested(condition) && stmt_ok(*body),
        Stmt::For { initializer, condition, increment, body, .. } => (match initializer {
            Some(i) => stmt_ok(*i),
            None => true,
        }) && opt_ok(condition) && opt_ok(increment) && stmt_ok(*body),
        Stmt::Function { body, .. } => stmt_ok(*body),
        Stmt::Return { value, .. } => opt_ok(value),
        Stmt::Class { name, super_class, methods, .. } => (super_class matches Some(sc) ==> sc@
            != name@) && forall|i: int| 0 <= i < methods.len() ==> #[trigger] stmt_ok(methods@[i]),
        Stmt::Break { .. } | Stmt::Continue { .. } => true,
    }
}

/// Operators of one precedence level associate to the left, and an operator never
/// has an operand that binds more loosely than itself: in a well-nested tree the left
/// operand of a binary or logical node is at its level or tighter, and the right
/// operand strictly tighter, so `a - b - c` can only be `(a - b) - c`.
pub proof fn lemma_operator_operands(e: Expr)
    requires
        well_nested(e),
    ensures
        e matches Expr::Binary { left, op, right, .. } ==> level(*left) >= level(e) && level(
            *right,
        ) > level(e) && level(e) == op_level(op),
        e matches Expr::Logical { left, op, right, .. } ==> level(*left) >= level(e) && level(
            *right,
        ) > level(e) && level(e) == op_level(op),
{
}

/// Tighter levels nest inside looser ones: the operand of a unary operator is unary,
/// postfix or primary; the callee of a call and the object of a property access are
/// postfix or primary; an assigned value contains no assignment at its top.
pub proof fn lemma_tighter_operands(e: Expr)
    requires
        well_nested(e),
    ensures
        e matches Expr::Unary { right, .. } ==> level(*right) >= 8,
        e matches Expr::Call { callee, .. } ==> level(*callee) >= 9,
        e matches Expr::Property { object, .. } ==> level(*object) >= 9,
        e matches Expr::Assign { value, .. } ==> level(*value) >= 2,
        e matches Expr::SetProperty { value, .. } ==> level(*value) >= 2,
{
}

} // verus!
