use rlox::errors::{ErrBuilder, ErrType, Position};
use rlox::state::State;
use rlox::tokens::{Token, TokenValue};

#[test]
fn expected_but_found_quotes_the_expected_text() {
    let e = ErrBuilder::new()
        .of_type(ErrType::ParsingErr)
        .at(Position { line: 0, line_pos: 4 })
        .expected_but_found("identifier", "7")
        .build();
    assert_eq!(e.msg, "Expected \"identifier\", but found 7.");
    assert_eq!(e.err_type, ErrType::ParsingErr);
    assert_eq!(e.pos, Position { line: 0, line_pos: 4 });
}

#[test]
fn build_appends_what_was_being_done() {
    let e = ErrBuilder::new()
        .of_type(ErrType::LogicError)
        .without_pos()
        .expected_found_nothing("token")
        .while_("reading")
        .build();
    assert_eq!(e.msg, "Expected \"token\", but found nothing.\nError occured while: \"reading\"");
    assert_eq!(e.pos, Position { line: 0, line_pos: 0 });
}

#[test]
fn is_not_and_cant_perform_quote_plain_texts() {
    let e = ErrBuilder::new().of_type(ErrType::LogicError).without_pos().is_not("Int(3)", "callable").build();
    assert_eq!(e.msg, "Int(3) is not \"callable\".");
    let e = ErrBuilder::new()
        .of_type(ErrType::LogicError)
        .without_pos()
        .cant_perform_a_on_b_and_c("plus", "Int(1)", "Bool(true)")
        .build();
    assert_eq!(e.msg, "Can't perform \"plus\" on Int(1) and Bool(true)");
}

#[test]
fn unbound_name_lookup_is_a_logic_error_naming_it() {
    let state = State::new();
    let y = Token::new(TokenValue::Id("y".to_string()), Position { line: 2, line_pos: 5 });
    let e = state.get(&y).unwrap_err();
    assert_eq!(e.err_type, ErrType::LogicError);
    assert_eq!(e.pos, Position { line: 2, line_pos: 5 });
    assert_eq!(e.msg, "Variable y is not in scope");
    let m = Token::new(TokenValue::Id("mod".to_string()), Position { line: 0, line_pos: 0 });
    assert!(state.get(&m).is_ok());
}

#[test]
fn global_scope_is_never_popped() {
    let mut state = State::new();
    state.push_new_scope();
    assert!(state.pop_last_scope().is_some());
    assert!(state.pop_last_scope().is_none());
    assert_eq!(state.depth(), 1);
}
