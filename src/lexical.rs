//! The lexical rules: which characters form words, and what a word stands for.

use vstd::prelude::*;
use vstd::string::*;
use crate::errors::{ErrBuilder, ErrType, LoxError, LoxResult, Position};
use crate::tokens::{keyword_of, Kwd, LoxValue, TokM, TokV, Token, TokenValue, ValM};
use crate::text::{chars_of, concat2};

verus! {

pub open spec fn is_digit(c: char) -> bool {
    48 <= (c as u32) && (c as u32) <= 57
}

pub open spec fn is_ascii_letter(c: char) -> bool {
    (65 <= (c as u32) && (c as u32) <= 90) || (97 <= (c as u32) && (c as u32) <= 122)
}

/// A character that may start an identifier.
pub open spec fn is_ident_start(c: char) -> bool {
    is_ascii_letter(c) || c == '_' || c == '\''
}

/// A character that may continue an identifier.
pub open spec fn is_ident_char(c: char) -> bool {
    is_ident_start(c) || is_digit(c)
}

/// A non-empty run of ASCII digits.
pub open spec fn is_number_text(s: Seq<char>) -> bool {
    s.len() > 0 && forall|i: int| 0 <= i < s.len() ==> is_digit(#[trigger] s[i])
}

/// An identifier: a letter, `_` or `'`, then letters, digits, `_` or `'`.
pub open spec fn is_identifier_text(s: Seq<char>) -> bool {
    &&& s.len() > 0
    &&& is_ident_start(s[0])
    &&& forall|i: int| 1 <= i < s.len() ==> is_ident_char(#[trigger] s[i])
}

/// The number that a run of digits spells.
pub open spec fn digits_value(s: Seq<char>) -> nat
    decreases s.len(),
{
    if s.len() == 0 {
        0
    } else {
        digits_value(s.drop_last()) * 10 + ((s.last() as u32) - 48) as nat
    }
}

/// What a word stands for, or `None` where it stands for nothing.
pub open spec fn classify(s: Seq<char>) -> Option<TokV> {
    if s == "true"@ {
        Some(TokV::Val(ValM::Boolean(true)))
    } else if s == "false"@ {
        Some(TokV::Val(ValM::Boolean(false)))
    } else if keyword_of(s) is Some {
        Some(TokV::Kwd(keyword_of(s)->Some_0))
    } else if is_number_text(s) {
        if digits_value(s) <= i64::MAX {
            Some(TokV::Val(ValM::Integer(digits_value(s) as i64)))
        } else {
            None
        }
    } else if s.len() >= 2 && s[0] == '"' && s.last() == '"' {
        Some(TokV::Val(ValM::Str(s.subrange(1, s.len() - 1))))
    } else if is_identifier_text(s) {
        Some(TokV::Id(s))
    } else {
        None
    }
}

/// Relies on `regex::Regex::new` and `Regex::is_match` with the pattern `^[0-9]+$`:
/// the text matches exactly when it is a non-empty run of ASCII digits.
#[verifier::external_body]
fn matches_number_pattern(s: &str) -> (r: bool)
    ensures
        r == is_number_text(s@),
{
    regex::Regex::new("^[0-9]+$").unwrap().is_match(s)
}

/// Relies on `regex::Regex::new` and `Regex::is_match` with the pattern
/// `^[a-zA-Z_'][a-zA-Z0-9_']*$`: the text matches exactly when it is an identifier.
#[verifier::external_body]
fn matches_identifier_pattern(s: &str) -> (r: bool)
    ensures
        r == is_identifier_text(s@),
{
    regex::Regex::new("^[a-zA-Z_'][a-zA-Z0-9_']*$").unwrap().is_match(s)
}

/// Whether `char::is_alphanumeric` holds of a character.
pub uninterp spec fn alphanumeric(c: char) -> bool;

/// Relies on `char::is_alphanumeric`: the answer depends on the character alone.
#[verifier::external_body]
fn is_alphanumeric(c: char) -> (r: bool)
    ensures
        r == alphanumeric(c),
{
    c.is_alphanumeric()
}

/// A character that may belong to a word: on ASCII a letter, a digit, `'`, `_` or `"`;
/// beyond ASCII an alphanumeric character.
pub open spec fn is_word_char(c: char) -> bool {
    if (c as u32) < 128 {
        is_ascii_letter(c) || is_digit(c) || c == '\'' || c == '_' || c == '"'
    } else {
        alphanumeric(c)
    }
}

pub fn is_valid_variable_char(c: char) -> (r: bool)
    ensures
        r == is_word_char(c),
{
    if (c as u32) < 128 {
        let u = c as u32;
        (65 <= u && u <= 90) || (97 <= u && u <= 122) || (48 <= u && u <= 57) || c == '\''
            || c == '_' || c == '"'
    } else {
        is_alphanumeric(c)
    }
}

proof fn lemma_prefix_value_le(s: Seq<char>, i: int)
    requires
        0 <= i <= s.len(),
        forall|k: int| 0 <= k < s.len() ==> is_digit(#[trigger] s[k]),
    ensures
        digits_value(s.take(i)) <= digits_value(s),
    decreases s.len(),
{
    if i == s.len() {
        assert(s.take(i) =~= s);
    } else {
        let t = s.drop_last();
        assert(t.take(i) =~= s.take(i));
        assert forall|k: int| 0 <= k < t.len() implies is_digit(#[trigger] t[k]) by {
            assert(t[k] == s[k]);
        }
        lemma_prefix_value_le(t, i);
    }
}

/// The value of a run of digits, or `None` where it exceeds `i64::MAX`.
pub fn parse_digits(s: &Vec<char>) -> (r: Option<i64>)
    requires
        forall|k: int| 0 <= k < s@.len() ==> is_digit(#[trigger] s@[k]),
    ensures
        digits_value(s@) <= i64::MAX ==> r == Some(digits_value(s@) as i64),
        digits_value(s@) > i64::MAX ==> r is None,
{
    let mut acc: i128 = 0;
    let mut i: usize = 0;
    while i < s.len()
        invariant
            i <= s.len(),
            forall|k: int| 0 <= k < s@.len() ==> is_digit(#[trigger] s@[k]),
            acc == digits_value(s@.take(i as int)),
            acc <= i64::MAX,
        decreases s.len() - i,
    {
        let d = (s[i] as u32 - 48) as i128;
        assert(s@.take(i + 1).drop_last() =~= s@.take(i as int));
        acc = acc * 10 + d;
        i += 1;
        if acc > i64::MAX as i128 {
            proof {
                lemma_prefix_value_le(s@, i as int);
            }
            return None;
        }
    }
    assert(s@.take(s@.len() as int) =~= s@);
    Some(acc as i64)
}

impl Token {
    /// Classifies a word read by the scanner: a boolean, a keyword, an integer, a quoted
    /// string or an identifier; anything else is a scanning error at `position`.
    pub fn from_string(string: String, position: Position) -> (r: LoxResult<Token>)
        ensures
            classify(string@) is Some ==> r is Ok && r->Ok_0@ == (TokM {
                val: classify(string@)->Some_0,
                pos: position,
            }),
            classify(string@) is None ==> r is Err && r->Err_0.err_type == ErrType::ScanningErr
                && r->Err_0.pos == position,
    {
        let s = string.as_str();
        let chars = chars_of(s);
        if crate::tokens::str_eq(s, "true") {
            Ok(Token { val: TokenValue::Val(LoxValue::Boolean(true)), pos: position })
        } else if crate::tokens::str_eq(s, "false") {
            Ok(Token { val: TokenValue::Val(LoxValue::Boolean(false)), pos: position })
        } else if Kwd::is_valid(&string) {
            match Kwd::from(&string, position) {
                Ok(k) => Ok(Token { val: TokenValue::Kwd(k), pos: position }),
                Err(e) => Err(e),
            }
        } else if matches_number_pattern(s) {
            match parse_digits(&chars) {
                Some(n) => Ok(Token { val: TokenValue::Val(LoxValue::Integer(n)), pos: position }),
                None => {
                    let m = concat2("Integer literal out of range: ", s);
                    ErrBuilder::new().at(position).of_type(ErrType::ScanningErr).with_message(
                        m,
                    ).to_result()
                },
            }
        } else if chars.len() >= 2 && chars[0] == '"' && chars[chars.len() - 1] == '"' {
            let inner = s.substring_char(1, chars.len() - 1);
            Ok(
                Token {
                    val: TokenValue::Val(LoxValue::String(String::from_str(inner))),
                    pos: position,
                },
            )
        } else if matches_identifier_pattern(s) {
            Ok(Token { val: TokenValue::Id(string.clone()), pos: position })
        } else {
            let m = concat2("Did not understand ", s);
            ErrBuilder::new().at(position).of_type(ErrType::ScanningErr).with_message(
                m,
            ).to_result()
        }
    }
}

} // verus!
