use rlox::errors::{ErrType, Position};
use rlox::parser::Parser;
use rlox::scanner::Scanner;
use rlox::structure::{Expr, Statement, Unary};

fn parse(src: &str) -> Result<Vec<Statement>, rlox::errors::LoxError> {
    let tokens = Scanner::new(src.to_string()).scan().unwrap();
    Parser::new(tokens).parse()
}

#[test]
fn statements_are_separated_by_semicolons() {
    let program = parse("var x = 1; print x; x;").unwrap();
    assert_eq!(program.len(), 3);
    assert!(matches!(program[0], Statement::Let(_, _)));
    assert!(matches!(program[1], Statement::Print(_)));
    assert!(matches!(program[2], Statement::Expr(_)));
}

#[test]
fn sum_of_products_is_one_term_chain() {
    let program = parse("1 + 2 * 3;").unwrap();
    match &program[0] {
        Statement::Expr(Expr::Eqlty(q)) => {
            assert!(q.rest.is_empty());
            assert!(q.first.rest.is_empty());
            let term = &q.first.first;
            assert_eq!(term.rest.len(), 1);
            assert!(term.first.rest.is_empty());
            assert_eq!(term.rest[0].1.rest.len(), 1);
        }
        _ => panic!("expected an expression statement"),
    }
}

#[test]
fn call_with_arguments_is_parsed() {
    let program = parse("f(1, x, -2);").unwrap();
    match &program[0] {
        Statement::Expr(Expr::Eqlty(q)) => match &q.first.first.first.first {
            Unary::Call(None, callee, args) => {
                assert_eq!(callee.pos, Position { line: 0, line_pos: 0 });
                assert_eq!(args.len(), 3);
            }
            _ => panic!("expected a call"),
        },
        _ => panic!("expected an expression statement"),
    }
}

#[test]
fn function_definition_keeps_parameters() {
    let program = parse("fun add(a, b) { return a + b; };").unwrap();
    match &program[0] {
        Statement::Fun(pos, def) => {
            assert_eq!(*pos, Position { line: 0, line_pos: 0 });
            assert_eq!(def.name, "add");
            assert_eq!(def.args, vec!["a".to_string(), "b".to_string()]);
            assert_eq!(def.body.len(), 1);
        }
        _ => panic!("expected a function definition"),
    }
}

#[test]
fn missing_closing_parenthesis_is_reported_at_last_token() {
    let e = parse("print (1 + 2;").unwrap_err();
    assert_eq!(e.err_type, ErrType::ParsingErr);
    assert_eq!(e.pos, Position { line: 0, line_pos: 12 });
}

#[test]
fn two_operands_in_a_row_are_a_parsing_error() {
    let e = parse("print 1 2;").unwrap_err();
    assert_eq!(e.err_type, ErrType::ParsingErr);
}

#[test]
fn class_stores_fields_and_finds_methods() {
    let program = parse("class A { var x = 1; fun m() { return 2; }; };").unwrap();
    match &program[0] {
        Statement::Class(c) => {
            assert_eq!(c.field_count(), 1);
            assert!(c.method(&"m".to_string()).is_some());
            assert!(c.method(&"z".to_string()).is_none());
        }
        _ => panic!("expected a class definition"),
    }
}

#[test]
fn statements_name_their_kind() {
    let program = parse("var x = 1; print x; while (x) { return 1; };").unwrap();
    assert_eq!(program[0].kind_name(), "LetStmt");
    assert_eq!(program[1].kind_name(), "Statement");
    assert_eq!(program[2].kind_name(), "WhileLoop");
}
