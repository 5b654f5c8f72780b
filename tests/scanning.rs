use rlox::errors::{ErrType, Position};
use rlox::scanner::Scanner;
use rlox::tokens::{Kwd, LoxValue, Punct, Token, TokenValue};

fn scan(src: &str) -> Result<Vec<Token>, rlox::errors::LoxError> {
    Scanner::new(src.to_string()).scan().map(|o| o.tokens)
}

fn is_punct(t: &Token, p: Punct) -> bool {
    matches!(&t.val, TokenValue::Punct(q) if *q == p)
}

#[test]
fn scan_ends_with_exactly_one_eof() {
    for src in ["", "   ", "var x = 1;", "// only a comment", "a == b != c <= d >= e"] {
        let tokens = scan(src).unwrap();
        let eofs = tokens.iter().filter(|t| is_punct(t, Punct::Eof)).count();
        assert_eq!(eofs, 1);
        assert!(is_punct(tokens.last().unwrap(), Punct::Eof));
    }
}

#[test]
fn two_character_marks_are_recognised() {
    let tokens = scan("!= == <= >= ! = < >").unwrap();
    let want = [
        Punct::BangEqual,
        Punct::EqualEqual,
        Punct::LessEqual,
        Punct::GreaterEqual,
        Punct::Bang,
        Punct::Equal,
        Punct::Less,
        Punct::Greater,
        Punct::Eof,
    ];
    assert_eq!(tokens.len(), want.len());
    for (t, p) in tokens.iter().zip(want.iter()) {
        assert!(is_punct(t, *p));
    }
}

#[test]
fn comments_are_skipped_to_the_end_of_the_line() {
    let tokens = scan("1 // two\n3").unwrap();
    assert_eq!(tokens.len(), 3);
    assert_eq!(tokens[1].pos, Position { line: 1, line_pos: 0 });
}

#[test]
fn words_are_classified() {
    let tokens = scan("while x_1 42 true \"hi there\"").unwrap();
    assert!(matches!(&tokens[0].val, TokenValue::Kwd(Kwd::While)));
    assert!(matches!(&tokens[1].val, TokenValue::Id(s) if s == "x_1"));
    assert!(matches!(&tokens[2].val, TokenValue::Val(v) if *v == LoxValue::Integer(42)));
    assert!(matches!(&tokens[3].val, TokenValue::Val(v) if *v == LoxValue::Boolean(true)));
    assert!(matches!(&tokens[4].val, TokenValue::Val(LoxValue::String(s)) if s == "hi there"));
}

#[test]
fn positions_track_lines_and_columns() {
    let tokens = scan("a\n  b").unwrap();
    assert_eq!(tokens[0].pos, Position { line: 0, line_pos: 0 });
    assert_eq!(tokens[1].pos, Position { line: 1, line_pos: 2 });
}

#[test]
fn unrecognized_character_is_a_scanning_error() {
    let e = scan("1 # 2").unwrap_err();
    assert_eq!(e.err_type, ErrType::ScanningErr);
    assert_eq!(e.pos, Position { line: 0, line_pos: 2 });
}

#[test]
fn word_that_is_neither_number_nor_name_is_a_scanning_error() {
    let e = scan("x 1a").unwrap_err();
    assert_eq!(e.err_type, ErrType::ScanningErr);
    assert_eq!(e.pos, Position { line: 0, line_pos: 2 });
    assert!(e.msg.contains("1a"));
}

#[test]
fn non_ascii_letter_forms_a_word_that_is_rejected() {
    let e = scan("é").unwrap_err();
    assert_eq!(e.err_type, ErrType::ScanningErr);
    assert!(e.msg.contains("é"));
}

#[test]
fn unterminated_string_is_a_scanning_error() {
    let e = scan("print \"abc").unwrap_err();
    assert_eq!(e.err_type, ErrType::ScanningErr);
    assert_eq!(e.pos, Position { line: 0, line_pos: 6 });
}

#[test]
fn from_string_classifies_numbers_and_names() {
    let p = Position { line: 3, line_pos: 4 };
    let n = Token::from_string("123".to_string(), p).unwrap();
    assert!(matches!(&n.val, TokenValue::Val(v) if *v == LoxValue::Integer(123)));
    assert_eq!(n.pos, p);
    let id = Token::from_string("abc'_9".to_string(), p).unwrap();
    assert!(matches!(&id.val, TokenValue::Id(s) if s == "abc'_9"));
    let s = Token::from_string("\"q\"".to_string(), p).unwrap();
    assert!(matches!(&s.val, TokenValue::Val(LoxValue::String(x)) if x == "q"));
    assert!(Token::from_string("9x".to_string(), p).is_err());
    assert!(Token::from_string("".to_string(), p).is_err());
}

#[test]
fn keywords_are_looked_up() {
    assert!(Kwd::is_valid(&"class".to_string()));
    assert!(!Kwd::is_valid(&"classy".to_string()));
    assert_eq!(Kwd::from(&"fun".to_string(), Position { line: 0, line_pos: 0 }).unwrap(), Kwd::Fun);
    let e = Kwd::from(&"nil".to_string(), Position { line: 1, line_pos: 1 }).unwrap_err();
    assert_eq!(e.err_type, ErrType::ScanningErr);
}
