use script_parser::{Error, Expr, LiteralType, Lexer, Parser, Program, Stmt};
use script_parser::ErrorInfo;
use script_parser::parser::{check_superclass, to_assignment};

fn parse(input: &str) -> Result<Program, ErrorInfo> {
    let mut parser = Parser::new(Lexer::new(input.to_string()));
    parser.parse_program()
}

#[test]
fn test_negative_unary() {
    let input = "-(1 / (2 * 32));";
    let mut parser = Parser::new(Lexer::new(input.into()));
    let expr = parser.parse_program().unwrap();
    assert_eq!(expr.render(), "((- (/ 1 (* 2 32))))");
}

#[test]
fn test_assignment() {
    let input = "
        let a = 1;
        print a ;";
    let mut parser = Parser::new(Lexer::new(input.to_string()));
    let expr = parser.parse_program().unwrap();
    assert_eq!(expr.render(), "((let a 1)(print a))");
}

#[test]
fn test_if() {
    let input = "
        if (a == 1) {
            print a;
        } else {
            print b;
        }";
    let mut parser = Parser::new(Lexer::new(input.to_string()));
    let expr = parser.parse_program().unwrap();
    assert_eq!(
        expr.render(),
        "((if (== a 1) then ((print a)) else ((print b))))"
    );
}

#[test]
fn same_level_chains_lean_left() {
    assert_eq!(parse("a - b - c;").unwrap().render(), "((- (- a b) c))");
    assert_eq!(parse("a * b / c;").unwrap().render(), "((/ (* a b) c))");
    assert_eq!(parse("a or b or c;").unwrap().render(), "((|| (|| a b) c))");
}

#[test]
fn precedence_levels_nest() {
    assert_eq!(parse("1 + 2 * 3;").unwrap().render(), "((+ 1 (* 2 3)))");
    assert_eq!(parse("a or b and c;").unwrap().render(), "((|| a (&& b c)))");
    assert_eq!(parse("a == b < c;").unwrap().render(), "((== a (< b c)))");
    assert_eq!(parse("a < b + c;").unwrap().render(), "((< a (+ b c)))");
    assert_eq!(parse("a | b * c;").unwrap().render(), "((| a (* b c)))");
    assert_eq!(parse("- - a;").unwrap().render(), "((- (- a)))");
    assert_eq!(parse("!a == b;").unwrap().render(), "((== (! a) b))");
}

#[test]
fn let_then_print_gives_two_statements() {
    let program = parse("let a = 1; print a;").unwrap();
    assert_eq!(program.stmt.len(), 2);
    match &program.stmt[0] {
        Stmt::Let { name, value, is_const, .. } => {
            assert_eq!(name, "a");
            assert!(!is_const);
            assert!(matches!(value, Some(Expr::Literal { value: LiteralType::Number(1), .. })));
        }
        other => panic!("expected a let statement, got {:?}", other),
    }
    match &program.stmt[1] {
        Stmt::Print { expr: Expr::Variable { name, .. }, .. } => assert_eq!(name, "a"),
        other => panic!("expected a print statement, got {:?}", other),
    }
}

#[test]
fn const_declaration_is_marked() {
    let program = parse("const k = 2;").unwrap();
    assert!(matches!(&program.stmt[0], Stmt::Let { is_const: true, .. }));
    assert_eq!(program.render(), "((const k 2))");
}

#[test]
fn if_else_has_one_statement_blocks() {
    let program = parse("if (a == 1) { print a; } else { print b; }").unwrap();
    assert_eq!(program.stmt.len(), 1);
    match &program.stmt[0] {
        Stmt::If { condition, truthy, falsy, .. } => {
            match condition {
                Expr::Logical { left, op, right, .. } => {
                    assert_eq!(*op, script_parser::Token::Eq);
                    assert!(matches!(left.as_ref(), Expr::Variable { name, .. } if name == "a"));
                    assert!(matches!(
                        right.as_ref(),
                        Expr::Literal { value: LiteralType::Number(1), .. }
                    ));
                }
                other => panic!("expected a logical condition, got {:?}", other),
            }
            assert!(matches!(truthy.as_ref(), Stmt::Block { stmt, .. } if stmt.len() == 1));
            match falsy {
                Some(f) => assert!(matches!(f.as_ref(), Stmt::Block { stmt, .. } if stmt.len() == 1)),
                None => panic!("expected an else branch"),
            }
        }
        other => panic!("expected an if statement, got {:?}", other),
    }
}

#[test]
fn assigning_to_a_literal_fails() {
    let err = parse("1 = 2;").unwrap_err();
    assert_eq!(err.error, Error::InvalidAssignmentTarget);
    assert_eq!(err.span.start, 2);
    assert_eq!(err.span.len, 1);
}

#[test]
fn assigning_to_a_call_result_fails() {
    let err = parse("f() += 2;").unwrap_err();
    assert_eq!(err.error, Error::InvalidAssignmentTarget);
    assert_eq!(err.span.start, 4);
    assert_eq!(err.span.len, 2);
}

#[test]
fn assignment_targets() {
    assert_eq!(parse("a = 1 + 2;").unwrap().render(), "((= a (+ 1 2)))");
    assert_eq!(parse("a.b = 1;").unwrap().render(), "((= (. a b) 1))");
    assert!(matches!(
        &parse("a.b = 1;").unwrap().stmt[0],
        Stmt::Expr { expr: Expr::SetProperty { .. }, .. }
    ));
}

#[test]
fn class_inheriting_from_itself_fails() {
    let err = parse("class A < A { }").unwrap_err();
    assert_eq!(err.error, Error::SelfInheritance);
    assert_eq!(err.span.start, 10);
    assert_eq!(err.span.len, 1);
}

#[test]
fn class_with_superclass_and_one_method() {
    let program = parse("class B < A { m() { print 1; } }").unwrap();
    assert_eq!(program.stmt.len(), 1);
    match &program.stmt[0] {
        Stmt::Class { name, super_class, methods, .. } => {
            assert_eq!(name, "B");
            assert_eq!(super_class.as_deref(), Some("A"));
            assert_eq!(methods.len(), 1);
            assert!(matches!(&methods[0], Stmt::Function { name, .. } if name == "m"));
        }
        other => panic!("expected a class, got {:?}", other),
    }
}

#[test]
fn parsing_twice_gives_the_same_tree() {
    let input = "fun f(a, b) { return a + b; } let x = f(1, 2); print x.y;";
    let first = parse(input).unwrap();
    let second = parse(input).unwrap();
    assert_eq!(first.render(), second.render());
    assert_eq!(format!("{:?}", first), format!("{:?}", second));
}

#[test]
fn calls_keep_their_arguments() {
    assert_eq!(parse("f(1, 2);").unwrap().render(), "((call f 1 2))");
    assert_eq!(parse("f();").unwrap().render(), "((call f))");
    assert_eq!(parse("a.b(c).d;").unwrap().render(), "((. (call (. a b) c) d))");
}

#[test]
fn primaries() {
    assert_eq!(parse("true;").unwrap().render(), "(true)");
    assert_eq!(parse("\"hi\";").unwrap().render(), "(hi)");
    assert_eq!(parse("this;").unwrap().render(), "(this)");
    assert_eq!(parse("super.m;").unwrap().render(), "((super m))");
}

#[test]
fn statements_render() {
    assert_eq!(
        parse("fun f(a, b) { return a; }").unwrap().render(),
        "((fun f (a b) ((return a))))"
    );
    assert_eq!(parse("while (a) print a;").unwrap().render(), "((while a (print a)))");
    assert_eq!(
        parse("for (let i = 0; i < 3; i = i + 1) print i;").unwrap().render(),
        "((for (let i 0) (< i 3) (= i (+ i 1)) (print i)))"
    );
    assert_eq!(parse("for (;;) { }").unwrap().render(), "((for _ _ _ ()))");
    assert_eq!(parse("return;").unwrap().render(), "((return _))");
}

#[test]
fn empty_input_is_an_empty_program() {
    let program = parse("").unwrap();
    assert_eq!(program.stmt.len(), 0);
    assert_eq!(program.render(), "()");
}

#[test]
fn missing_semicolon_is_a_syntax_error() {
    let err = parse("print 1").unwrap_err();
    assert_eq!(err.error, Error::Syntax);
}

#[test]
fn missing_name_is_reported() {
    let err = parse("let 1 = 2;").unwrap_err();
    assert_eq!(err.error, Error::ExpectedIdentifier);
    assert_eq!(err.span.start, 4);
}

#[test]
fn missing_expression_is_reported() {
    let err = parse("print ;").unwrap_err();
    assert_eq!(err.error, Error::ExpectedExpression);
    assert_eq!(err.span.start, 6);
}

#[test]
fn unclosed_block_fails() {
    let err = parse("{ print 1;").unwrap_err();
    assert_eq!(err.error, Error::Syntax);
}

fn at(start: usize) -> script_parser::Span {
    script_parser::Span { start, len: 1, line: 1 }
}

#[test]
fn assignment_target_rules() {
    let one = || Expr::Literal { value: LiteralType::Number(1), span: at(4) };
    let var = Expr::Variable { name: "a".to_string(), span: at(0) };
    match to_assignment(var, one(), at(2)) {
        Ok(Expr::Assign { name, span, .. }) => {
            assert_eq!(name, "a");
            assert_eq!(span.start, 0);
        }
        other => panic!("expected an assignment, got {:?}", other),
    }
    let get = Expr::Property {
        object: Box::new(Expr::Variable { name: "o".to_string(), span: at(0) }),
        name: "f".to_string(),
        span: at(2),
    };
    assert!(matches!(to_assignment(get, one(), at(4)), Ok(Expr::SetProperty { .. })));
    let lit = Expr::Literal { value: LiteralType::Boolean(true), span: at(0) };
    let err = to_assignment(lit, one(), at(5)).unwrap_err();
    assert_eq!(err.error, Error::InvalidAssignmentTarget);
    assert_eq!(err.span.start, 5);
}

#[test]
fn superclass_rules() {
    let name = "A".to_string();
    assert_eq!(check_superclass(&name, "B".to_string(), at(3)).unwrap(), "B");
    let err = check_superclass(&name, "A".to_string(), at(7)).unwrap_err();
    assert_eq!(err.error, Error::SelfInheritance);
    assert_eq!(err.span.start, 7);
}

#[test]
fn unknown_character_is_an_error() {
    let err = parse("print 1 # 2;").unwrap_err();
    assert_eq!(err.error, Error::Syntax);
    assert_eq!(err.span.start, 8);
    let err = parse("@;").unwrap_err();
    assert_eq!(err.error, Error::ExpectedExpression);
}

#[test]
fn this_is_named_this_whatever_its_text() {
    use_tokens_this();
}

fn use_tokens_this() {
    let tokens = vec![
        script_parser::TokenInfo::new(script_parser::Token::This, "self".to_string(), 0, at(0)),
        script_parser::TokenInfo::new(script_parser::Token::Semicolon, String::new(), 0, at(4)),
    ];
    let mut parser = Parser::new(Lexer::from_tokens(tokens));
    let program = parser.parse_program().unwrap();
    match &program.stmt[0] {
        Stmt::Expr { expr: Expr::Variable { name, span }, .. } => {
            assert_eq!(name, "this");
            assert_eq!(span.start, 0);
        }
        other => panic!("expected a variable, got {:?}", other),
    }
}
