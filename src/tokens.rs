//! Tokens: punctuation, keywords, literal values and identifiers, each with a position.

use vstd::prelude::*;
use vstd::string::*;
use crate::errors::{ErrBuilder, ErrType, LoxError, LoxResult, Position};
use crate::text::{decimal, i64_to_decimal};

verus! {

/// Punctuation marks, and the end of the input.
#[derive(Clone, Copy, PartialEq, Eq, Debug, Structural)]
pub enum Punct {
    LeftParen,
    RightParen,
    LeftBrace,
    RightBrace,
    Comme,
    Dot,
    Minus,
    Plus,
    Semicolon,
    Slash,
    Star,
    Bang,
    BangEqual,
    Equal,
    EqualEqual,
    Greater,
    GreaterEqual,
    Less,
    LessEqual,
    Eof,
}

pub open spec fn punct_name(p: Punct) -> Seq<char> {
    match p {
        Punct::LeftParen => "LeftParen"@,
        Punct::RightParen => "RightParen"@,
        Punct::LeftBrace => "LeftBrace"@,
        Punct::RightBrace => "RightBrace"@,
        Punct::Comme => "Comma"@,
        Punct::Dot => "Dot"@,
        Punct::Minus => "Minus"@,
        Punct::Plus => "Plus"@,
        Punct::Semicolon => "Semicolon"@,
        Punct::Slash => "Slash"@,
        Punct::Star => "Star"@,
        Punct::Bang => "Bang"@,
        Punct::BangEqual => "BangEqual"@,
        Punct::Equal => "Equal"@,
        Punct::EqualEqual => "EqualEqual"@,
        Punct::Greater => "Greater"@,
        Punct::GreaterEqual => "GreaterEqual"@,
        Punct::Less => "Less"@,
        Punct::LessEqual => "LessEqual"@,
        Punct::Eof => "Eof"@,
    }
}

impl Punct {
    pub fn name(&self) -> (r: &'static str)
        ensures
            r@ == punct_name(*self),
    {
        match self {
            Punct::LeftParen => "LeftParen",
            Punct::RightParen => "RightParen",
            Punct::LeftBrace => "LeftBrace",
            Punct::RightBrace => "RightBrace",
            Punct::Comme => "Comma",
            Punct::Dot => "Dot",
            Punct::Minus => "Minus",
            Punct::Plus => "Plus",
            Punct::Semicolon => "Semicolon",
            Punct::Slash => "Slash",
            Punct::Star => "Star",
            Punct::Bang => "Bang",
            Punct::BangEqual => "BangEqual",
            Punct::Equal => "Equal",
            Punct::EqualEqual => "EqualEqual",
            Punct::Greater => "Greater",
            Punct::GreaterEqual => "GreaterEqual",
            Punct::Less => "Less",
            Punct::LessEqual => "LessEqual",
            Punct::Eof => "Eof",
        }
    }

    pub fn is_eq_or_neq(&self) -> (r: bool)
        ensures
            r == (*self == Punct::EqualEqual || *self == Punct::BangEqual),
    {
        matches!(self, Punct::EqualEqual | Punct::BangEqual)
    }

    pub fn is_comparison(&self) -> (r: bool)
        ensures
            r == (*self == Punct::Greater || *self == Punct::GreaterEqual || *self == Punct::Less
                || *self == Punct::LessEqual),
    {
        matches!(self, Punct::Greater | Punct::GreaterEqual | Punct::Less | Punct::LessEqual)
    }

    pub fn is_plus_minus(&self) -> (r: bool)
        ensures
            r == (*self == Punct::Plus || *self == Punct::Minus),
    {
        matches!(self, Punct::Plus | Punct::Minus)
    }

    pub fn is_mul_div(&self) -> (r: bool)
        ensures
            r == (*self == Punct::Star || *self == Punct::Slash),
    {
        matches!(self, Punct::Star | Punct::Slash)
    }

    pub fn is_neg(&self) -> (r: bool)
        ensures
            r == (*self == Punct::Minus),
    {
        matches!(self, Punct::Minus)
    }

    /// A token of this mark at `pos`.
    pub fn at(self, pos: Position) -> (r: Token)
        ensures
            r@ == (TokM { val: TokV::Punct(self), pos }),
    {
        Token { val: TokenValue::Punct(self), pos }
    }
}

/// Reserved words.
#[derive(Clone, Copy, PartialEq, Eq, Debug, Structural)]
pub enum Kwd {
    And,
    Class,
    Else,
    Fun,
    For,
    If,
    Print,
    Return,
    Super,
    This,
    Var,
    While,
}

/// The keyword that a word spells, if any.
pub open spec fn keyword_of(s: Seq<char>) -> Option<Kwd> {
    if s == "and"@ {
        Some(Kwd::And)
    } else if s == "class"@ {
        Some(Kwd::Class)
    } else if s == "else"@ {
        Some(Kwd::Else)
    } else if s == "fun"@ {
        Some(Kwd::Fun)
    } else if s == "for"@ {
        Some(Kwd::For)
    } else if s == "if"@ {
        Some(Kwd::If)
    } else if s == "print"@ {
        Some(Kwd::Print)
    } else if s == "return"@ {
        Some(Kwd::Return)
    } else if s == "super"@ {
        Some(Kwd::Super)
    } else if s == "this"@ {
        Some(Kwd::This)
    } else if s == "var"@ {
        Some(Kwd::Var)
    } else if s == "while"@ {
        Some(Kwd::While)
    } else {
        None
    }
}

pub open spec fn kwd_name(k: Kwd) -> Seq<char> {
    match k {
        Kwd::And => "and"@,
        Kwd::Class => "class"@,
        Kwd::Else => "else"@,
        Kwd::Fun => "fun"@,
        Kwd::For => "for"@,
        Kwd::If => "if"@,
        Kwd::Print => "print"@,
        Kwd::Return => "return"@,
        Kwd::Super => "super"@,
        Kwd::This => "this"@,
        Kwd::Var => "var"@,
        Kwd::While => "while"@,
    }
}

/// Whether two strings hold the same characters.
pub fn str_eq(a: &str, b: &str) -> (r: bool)
    ensures
        r == (a@ == b@),
{
    String::from_str(a) == String::from_str(b)
}

impl Kwd {
    pub fn name(&self) -> (r: &'static str)
        ensures
            r@ == kwd_name(*self),
    {
        match self {
            Kwd::And => "and",
            Kwd::Class => "class",
            Kwd::Else => "else",
            Kwd::Fun => "fun",
            Kwd::For => "for",
            Kwd::If => "if",
            Kwd::Print => "print",
            Kwd::Return => "return",
            Kwd::Super => "super",
            Kwd::This => "this",
            Kwd::Var => "var",
            Kwd::While => "while",
        }
    }

    /// The keyword spelled by `string`, or a scanning error at `pos`.
    pub fn from(string: &String, pos: Position) -> (r: LoxResult<Kwd>)
        ensures
            keyword_of(string@) is Some ==> r == Ok::<Kwd, LoxError>(keyword_of(string@)->Some_0),
            keyword_of(string@) is None ==> r is Err && r->Err_0.err_type == ErrType::ScanningErr
                && r->Err_0.pos == pos,
    {
        let s = string.as_str();
        if str_eq(s, "and") {
            Ok(Kwd::And)
        } else if str_eq(s, "class") {
            Ok(Kwd::Class)
        } else if str_eq(s, "else") {
            Ok(Kwd::Else)
        } else if str_eq(s, "fun") {
            Ok(Kwd::Fun)
        } else if str_eq(s, "for") {
            Ok(Kwd::For)
        } else if str_eq(s, "if") {
            Ok(Kwd::If)
        } else if str_eq(s, "print") {
            Ok(Kwd::Print)
        } else if str_eq(s, "return") {
            Ok(Kwd::Return)
        } else if str_eq(s, "super") {
            Ok(Kwd::Super)
        } else if str_eq(s, "this") {
            Ok(Kwd::This)
        } else if str_eq(s, "var") {
            Ok(Kwd::Var)
        } else if str_eq(s, "while") {
            Ok(Kwd::While)
        } else {
            ErrBuilder::new().at(pos).of_type(ErrType::ScanningErr).expected_but_found(
                "a keyword",
                s,
            ).to_result()
        }
    }

    pub fn is_valid(string: &String) -> (r: bool)
        ensures
            r == keyword_of(string@) is Some,
    {
        Kwd::from(string, Position { line: 0, line_pos: 0 }).is_ok()
    }
}

/// A runtime value: an integer, a boolean or a string.
#[derive(Debug)]
pub enum LoxValue {
    Integer(i64),
    Boolean(bool),
    String(String),
}

/// What a `LoxValue` holds.
pub enum ValM {
    Integer(i64),
    Boolean(bool),
    Str(Seq<char>),
}

impl View for LoxValue {
    type V = ValM;

    open spec fn view(&self) -> ValM {
        match self {
            LoxValue::Integer(i) => ValM::Integer(*i),
            LoxValue::Boolean(b) => ValM::Boolean(*b),
            LoxValue::String(s) => ValM::Str(s@),
        }
    }
}

impl Clone for LoxValue {
    fn clone(&self) -> (r: Self)
        ensures
            r == *self,
    {
        match self {
            LoxValue::Integer(i) => LoxValue::Integer(*i),
            LoxValue::Boolean(b) => LoxValue::Boolean(*b),
            LoxValue::String(s) => LoxValue::String(s.clone()),
        }
    }
}

impl PartialEq for LoxValue {
    fn eq(&self, other: &LoxValue) -> (r: bool) {
        match (self, other) {
            (LoxValue::Integer(a), LoxValue::Integer(b)) => *a == *b,
            (LoxValue::Boolean(a), LoxValue::Boolean(b)) => *a == *b,
            (LoxValue::String(a), LoxValue::String(b)) => *a == *b,
            _ => false,
        }
    }
}

impl vstd::std_specs::cmp::PartialEqSpecImpl for LoxValue {
    open spec fn obeys_eq_spec() -> bool {
        true
    }

    open spec fn eq_spec(&self, other: &LoxValue) -> bool {
        self@ == other@
    }
}

/// How a value is shown: integers in decimal, booleans as `true` or `false`, strings as they are.
pub open spec fn render_value(v: ValM) -> Seq<char> {
    match v {
        ValM::Integer(i) => decimal(i as int),
        ValM::Boolean(b) => if b { "true"@ } else { "false"@ },
        ValM::Str(s) => s,
    }
}

/// How a value is named in messages: `Int(3)`, `Bool(true)`, `String(abc)`.
pub open spec fn value_text(v: ValM) -> Seq<char> {
    match v {
        ValM::Integer(i) => "Int("@ + decimal(i as int) + ")"@,
        ValM::Boolean(b) => if b { "Bool(true)"@ } else { "Bool(false)"@ },
        ValM::Str(s) => "String("@ + s + ")"@,
    }
}

/// The truth of a value in a condition: a non-zero integer, a non-empty string, or the boolean itself.
pub open spec fn truthy(v: ValM) -> bool {
    match v {
        ValM::Integer(i) => i != 0,
        ValM::Boolean(b) => b,
        ValM::Str(s) => s.len() > 0,
    }
}

pub fn lox_int(i: i64) -> (r: LoxValue)
    ensures
        r@ == ValM::Integer(i),
{
    LoxValue::Integer(i)
}

pub fn lox_bool(b: bool) -> (r: LoxValue)
    ensures
        r@ == ValM::Boolean(b),
{
    LoxValue::Boolean(b)
}

impl LoxValue {
    pub fn from_int(x: i64) -> (r: Self)
        ensures
            r@ == ValM::Integer(x),
    {
        LoxValue::Integer(x)
    }

    pub fn from_bool(x: bool) -> (r: Self)
        ensures
            r@ == ValM::Boolean(x),
    {
        LoxValue::Boolean(x)
    }

    pub fn from_string(x: String) -> (r: Self)
        ensures
            r@ == ValM::Str(x@),
    {
        LoxValue::String(x)
    }

    /// The truth of the value in a condition.
    pub fn is_truthy(&self) -> (r: bool)
        ensures
            r == truthy(self@),
    {
        match self {
            LoxValue::Integer(x) => *x != 0,
            LoxValue::Boolean(x) => *x,
            LoxValue::String(x) => x.as_str().unicode_len() > 0,
        }
    }

    /// The value as `print` shows it.
    pub fn render(&self) -> (r: String)
        ensures
            r@ == render_value(self@),
    {
        match self {
            LoxValue::Integer(x) => i64_to_decimal(*x),
            LoxValue::Boolean(x) => if *x {
                String::from_str("true")
            } else {
                String::from_str("false")
            },
            LoxValue::String(x) => x.clone(),
        }
    }

    /// The value as messages name it.
    pub fn describe(&self) -> (r: String)
        ensures
            r@ == value_text(self@),
    {
        match self {
            LoxValue::Integer(x) => {
                let d = i64_to_decimal(*x);
                crate::text::concat3("Int(", d.as_str(), ")")
            },
            LoxValue::Boolean(x) => if *x {
                String::from_str("Bool(true)")
            } else {
                String::from_str("Bool(false)")
            },
            LoxValue::String(x) => crate::text::concat3("String(", x.as_str(), ")"),
        }
    }

    /// A token of this value at `pos`.
    pub fn at(self, pos: Position) -> (r: Token)
        ensures
            r@ == (TokM { val: TokV::Val(self@), pos }),
    {
        Token { val: TokenValue::Val(self), pos }
    }
}

/// What a token is, without its position.
#[derive(Debug)]
pub enum TokenValue {
    Punct(Punct),
    Kwd(Kwd),
    Val(LoxValue),
    Id(String),
}

/// What a `TokenValue` holds.
pub enum TokV {
    Punct(Punct),
    Kwd(Kwd),
    Val(ValM),
    Id(Seq<char>),
}

impl View for TokenValue {
    type V = TokV;

    open spec fn view(&self) -> TokV {
        match self {
            TokenValue::Punct(p) => TokV::Punct(*p),
            TokenValue::Kwd(k) => TokV::Kwd(*k),
            TokenValue::Val(v) => TokV::Val(v@),
            TokenValue::Id(s) => TokV::Id(s@),
        }
    }
}

impl Clone for TokenValue {
    fn clone(&self) -> (r: Self)
        ensures
            r == *self,
    {
        match self {
            TokenValue::Punct(p) => TokenValue::Punct(*p),
            TokenValue::Kwd(k) => TokenValue::Kwd(*k),
            TokenValue::Val(v) => TokenValue::Val(v.clone()),
            TokenValue::Id(s) => TokenValue::Id(s.clone()),
        }
    }
}

/// A token value with the position where it starts.
#[derive(Debug)]
pub struct Token {
    pub val: TokenValue,
    pub pos: Position,
}

/// What a `Token` holds.
pub struct TokM {
    pub val: TokV,
    pub pos: Position,
}

impl View for Token {
    type V = TokM;

    open spec fn view(&self) -> TokM {
        TokM { val: self.val@, pos: self.pos }
    }
}

impl Clone for Token {
    fn clone(&self) -> (r: Self)
        ensures
            r == *self,
    {
        Token { val: self.val.clone(), pos: self.pos }
    }
}

/// How a token is named in messages.
pub open spec fn token_text(t: TokV) -> Seq<char> {
    match t {
        TokV::Punct(p) => punct_name(p),
        TokV::Kwd(k) => "Keyword("@ + kwd_name(k) + ")"@,
        TokV::Val(v) => value_text(v),
        TokV::Id(s) => "Id("@ + s + ")"@,
    }
}

pub open spec fn is_punct(t: TokM, p: Punct) -> bool {
    t.val == TokV::Punct(p)
}

pub open spec fn is_kwd(t: TokM, k: Kwd) -> bool {
    t.val == TokV::Kwd(k)
}

pub open spec fn is_id(t: TokM) -> bool {
    t.val is Id
}

pub open spec fn is_val(t: TokM) -> bool {
    t.val is Val
}

impl Token {
    pub fn new(tok_val: TokenValue, pos: Position) -> (r: Self)
        ensures
            r.val == tok_val,
            r.pos == pos,
    {
        Token { val: tok_val, pos }
    }

    pub fn as_punct(&self) -> (r: LoxResult<Punct>)
        ensures
            self.val is Punct ==> r == Ok::<Punct, LoxError>(self.val->Punct_0),
            !(self.val is Punct) ==> r is Err && r->Err_0.err_type == ErrType::InterpreterError
                && r->Err_0.pos == self.pos,
    {
        match &self.val {
            TokenValue::Punct(p) => Ok(*p),
            _ => {
                let d = self.describe();
                ErrBuilder::new().at(self.pos).of_type(ErrType::InterpreterError).is_not(
                    d.as_str(),
                    "a punctuation mark",
                ).to_result()
            },
        }
    }

    pub fn is_identifier(&self) -> (r: bool)
        ensures
            r == is_id(self@),
    {
        matches!(self.val, TokenValue::Id(_))
    }

    pub fn is_value(&self) -> (r: bool)
        ensures
            r == is_val(self@),
    {
        matches!(self.val, TokenValue::Val(_))
    }

    pub fn equals_punct(&self, p: Punct) -> (r: bool)
        ensures
            r == is_punct(self@, p),
    {
        match &self.val {
            TokenValue::Punct(q) => *q == p,
            _ => false,
        }
    }

    pub fn equals_kwd(&self, k: Kwd) -> (r: bool)
        ensures
            r == is_kwd(self@, k),
    {
        match &self.val {
            TokenValue::Kwd(q) => *q == k,
            _ => false,
        }
    }

    pub fn as_lox_value(&self) -> (r: LoxResult<LoxValue>)
        ensures
            self.val is Val ==> r is Ok && r->Ok_0@ == self.val->Val_0@,
            !(self.val is Val) ==> r is Err && r->Err_0.err_type == ErrType::LogicError
                && r->Err_0.pos == self.pos,
    {
        match &self.val {
            TokenValue::Val(v) => Ok(v.clone()),
            _ => {
                let d = self.describe();
                ErrBuilder::new().at(self.pos).of_type(ErrType::LogicError).is_not(
                    d.as_str(),
                    "a lox value",
                ).to_result()
            },
        }
    }

    pub fn tokenizing_err() -> (r: ErrBuilder)
        ensures
            r.err_type == Some(ErrType::TokenizingErr),
            r.message is None,
            r.while_info is None,
            r.pos is None,
    {
        ErrBuilder::new().of_type(ErrType::TokenizingErr)
    }

    /// Only `-` stands before an operand.
    pub fn can_be_unary_op(&self) -> (r: bool)
        ensures
            r == is_punct(self@, Punct::Minus),
    {
        self.equals_punct(Punct::Minus)
    }

    pub fn describe(&self) -> (r: String)
        ensures
            r@ == token_text(self.val@),
    {
        match &self.val {
            TokenValue::Punct(p) => String::from_str(p.name()),
            TokenValue::Kwd(k) => crate::text::concat3("Keyword(", k.name(), ")"),
            TokenValue::Val(v) => v.describe(),
            TokenValue::Id(s) => crate::text::concat3("Id(", s.as_str(), ")"),
        }
    }
}

} // verus!
