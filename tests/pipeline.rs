use rlox::errors::{ErrType, Position};
use rlox::interpreter::LoxInterpreter;

fn run(src: &str) -> (Result<String, rlox::errors::LoxError>, Vec<String>) {
    let mut interpreter = LoxInterpreter::new();
    let result = interpreter.run(src.to_string());
    let out = interpreter.take_output();
    (result, out)
}

#[test]
fn prints_sum_of_variable_and_literal() {
    let (r, out) = run("var x = 3; print x + 4;");
    assert_eq!(r.unwrap(), "Ok!");
    assert_eq!(out, vec!["7".to_string()]);
}

#[test]
fn if_with_true_condition_prints() {
    let (r, out) = run("if (1 == 1) { print true; }");
    assert!(r.is_ok());
    assert_eq!(out, vec!["true".to_string()]);
}

#[test]
fn if_with_false_condition_prints_nothing() {
    let (r, out) = run("if (1 == 2) { print true; }");
    assert!(r.is_ok());
    assert!(out.is_empty());
}

#[test]
fn function_call_returns_sum() {
    let (r, out) = run("fun add(a, b) { return a + b; }; print add(2, 3);");
    assert!(r.is_ok());
    assert_eq!(out, vec!["5".to_string()]);
}

#[test]
fn incomplete_expression_is_a_parsing_error() {
    let (r, _) = run("1 +");
    let e = r.unwrap_err();
    assert_eq!(e.err_type, ErrType::ParsingErr);
    assert!(e.msg.contains("Expected"));
    assert!(e.msg.contains("found nothing"));
    assert_eq!(e.pos, Position { line: 0, line_pos: 3 });
}

#[test]
fn unbound_name_is_a_logic_error_at_its_position() {
    let (r, out) = run("print y;");
    let e = r.unwrap_err();
    assert_eq!(e.err_type, ErrType::LogicError);
    assert!(e.msg.contains("y"));
    assert!(e.msg.contains("not in scope"));
    assert_eq!(e.pos, Position { line: 0, line_pos: 6 });
    assert!(out.is_empty());
}

#[test]
fn product_binds_tighter_than_sum() {
    let (_, out) = run("print 2 + 3 * 4;");
    assert_eq!(out, vec!["14".to_string()]);
}

#[test]
fn parentheses_group_first() {
    let (_, out) = run("print (2 + 3) * 4;");
    assert_eq!(out, vec!["20".to_string()]);
}

#[test]
fn difference_groups_left() {
    let (_, out) = run("print 10 - 4 - 3;");
    assert_eq!(out, vec!["3".to_string()]);
}

#[test]
fn binding_inside_block_does_not_leak() {
    let (r, _) = run("if (true) { var z = 1; }; print z;");
    let e = r.unwrap_err();
    assert_eq!(e.err_type, ErrType::LogicError);
}

#[test]
fn assignment_inside_block_reaches_outer_binding() {
    let (r, out) = run("var x = 1; if (true) { var x = 2; }; print x;");
    assert!(r.is_ok());
    assert_eq!(out, vec!["2".to_string()]);
}

#[test]
fn parameter_shadows_global_without_changing_it() {
    let (r, out) = run("var a = 1; fun f(a) { var a = 5; return a; }; print f(9); print a;");
    assert!(r.is_ok());
    assert_eq!(out, vec!["5".to_string(), "1".to_string()]);
}

#[test]
fn while_loop_runs_until_condition_fails() {
    let (r, out) = run("var i = 0; while (i != 3) { var i = i + 1; print i; }; print i;");
    assert!(r.is_ok());
    assert_eq!(out, vec!["1", "2", "3", "3"].into_iter().map(String::from).collect::<Vec<_>>());
}

#[test]
fn return_inside_while_leaves_function() {
    let (r, out) = run("fun f() { while (true) { return 4; }; return 5; }; print f();");
    assert!(r.is_ok());
    assert_eq!(out, vec!["4".to_string()]);
}

#[test]
fn function_without_return_yields_zero() {
    let (_, out) = run("fun f() { 1; }; print f();");
    assert_eq!(out, vec!["0".to_string()]);
}

#[test]
fn error_positions_are_stable_between_runs() {
    let (r1, _) = run("var x = 1;\nprint x +;");
    let (r2, _) = run("var x = 1;\nprint x +;");
    let (e1, e2) = (r1.unwrap_err(), r2.unwrap_err());
    assert_eq!(e1.pos, e2.pos);
    assert_eq!(e1.err_type, e2.err_type);
    assert_eq!(e1.pos.line, 1);
}

#[test]
fn integer_overflow_is_a_logic_error() {
    let (r, _) = run("print 9223372036854775807 + 1;");
    assert_eq!(r.unwrap_err().err_type, ErrType::LogicError);
}

#[test]
fn integer_literal_out_of_range_is_a_scanning_error() {
    let (r, _) = run("print 99999999999999999999;");
    assert_eq!(r.unwrap_err().err_type, ErrType::ScanningErr);
}

#[test]
fn builtin_mod_gives_remainder() {
    let (_, out) = run("print mod(7, 3); print mod(-7, 3);");
    assert_eq!(out, vec!["1".to_string(), "-1".to_string()]);
}

#[test]
fn builtin_mod_by_zero_is_a_runtime_error() {
    let (r, _) = run("print mod(1, 0);");
    assert_eq!(r.unwrap_err().err_type, ErrType::RuntimeError);
}

#[test]
fn leading_minus_negates() {
    let (_, out) = run("print -5 + 2; print -true;");
    assert_eq!(out, vec!["-3".to_string(), "false".to_string()]);
}

#[test]
fn boolean_operators_follow_the_table() {
    let (_, out) = run("print true + false; print true * false; print true - false; print false != true;");
    let want: Vec<String> = vec!["true", "false", "true", "true"].into_iter().map(String::from).collect();
    assert_eq!(out, want);
}

#[test]
fn strings_compare_and_do_not_add() {
    let (_, out) = run("print \"hi\"; print \"a\" == \"a\";");
    assert_eq!(out, vec!["hi".to_string(), "true".to_string()]);
    let (r, _) = run("print \"a\" + \"b\";");
    assert_eq!(r.unwrap_err().err_type, ErrType::LogicError);
}

#[test]
fn mixed_operand_types_are_a_logic_error() {
    let (r, _) = run("print 1 == true;");
    assert_eq!(r.unwrap_err().err_type, ErrType::LogicError);
}

#[test]
fn comparison_operators_are_rejected_at_evaluation() {
    let (r, _) = run("print 1 < 2;");
    let e = r.unwrap_err();
    assert_eq!(e.err_type, ErrType::LogicError);
    assert_eq!(e.pos, Position { line: 0, line_pos: 8 });
}

#[test]
fn non_boolean_condition_uses_truthiness() {
    let (_, out) = run("if (2) { print 1; }; if (0) { print 2; }; if (\"\") { print 3; }; if (\"x\") { print 4; };");
    assert_eq!(out, vec!["1".to_string(), "4".to_string()]);
}

#[test]
fn function_as_condition_is_a_logic_error() {
    let (r, _) = run("fun f() { return 1; }; if (f) { print 1; };");
    let e = r.unwrap_err();
    assert_eq!(e.err_type, ErrType::LogicError);
    assert_eq!(e.pos, Position { line: 0, line_pos: 27 });
}

#[test]
fn class_definition_binds_its_name() {
    let (r, out) = run("class A { var x = 1; fun m() { return 2; }; }; print A;");
    assert!(r.is_ok());
    assert_eq!(out, vec!["Class A".to_string()]);
}

#[test]
fn calling_a_class_is_a_logic_error() {
    let (r, _) = run("class A { var x = 1; }; A();");
    assert_eq!(r.unwrap_err().err_type, ErrType::LogicError);
}

#[test]
fn class_body_rejects_other_statements() {
    let (r, _) = run("class A { print 1; };");
    assert_eq!(r.unwrap_err().err_type, ErrType::ParsingErr);
}

#[test]
fn environment_persists_across_runs() {
    let mut interpreter = LoxInterpreter::new();
    assert!(interpreter.run("var x = 41;".to_string()).is_ok());
    assert!(interpreter.run("print x + 1;".to_string()).is_ok());
    assert_eq!(interpreter.take_output(), vec!["42".to_string()]);
}

#[test]
fn diagnostic_points_at_the_error() {
    let src = "print y;".to_string();
    let mut interpreter = LoxInterpreter::new();
    let e = interpreter.run(src.clone()).unwrap_err();
    let text = e.generate_err_msg(&src);
    assert_eq!(text, " |\n | [1] print y;\n |           ^ Variable y is not in scope\n");
}

#[test]
fn diagnostic_uses_the_right_line() {
    let src = "var a = 1;\nprint b;\r\n".to_string();
    let mut interpreter = LoxInterpreter::new();
    let e = interpreter.run(src.clone()).unwrap_err();
    assert_eq!(e.pos, Position { line: 1, line_pos: 6 });
    let text = e.generate_err_msg(&src);
    assert_eq!(text, " |\n | [2] print b;\n |           ^ Variable b is not in scope\n");
}

#[test]
fn semicolon_may_be_left_out_after_a_block_and_at_the_end() {
    let (r, out) = run("var x = 3; if (x == 3) { print x }\nprint x + 4");
    assert!(r.is_ok());
    assert_eq!(out, vec!["3".to_string(), "7".to_string()]);
}

#[test]
fn statements_on_one_line_still_need_a_semicolon() {
    let (r, _) = run("print 1 print 2;");
    assert_eq!(r.unwrap_err().err_type, ErrType::ParsingErr);
}

#[test]
fn punctuation_is_not_an_operand() {
    let (r, _) = run("print );");
    let e = r.unwrap_err();
    assert_eq!(e.err_type, ErrType::ParsingErr);
    assert_eq!(e.pos, Position { line: 0, line_pos: 0 });
    let (r, _) = run("+ ;");
    assert_eq!(r.unwrap_err().err_type, ErrType::ParsingErr);
    let (r, _) = run("print - ;");
    assert_eq!(r.unwrap_err().err_type, ErrType::ParsingErr);
}
