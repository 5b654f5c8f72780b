//! The error value shared by every stage, and a builder for it.

use vstd::prelude::*;
use vstd::string::*;

verus! {

/// A place in the source text: a zero-based line and a zero-based column.
#[derive(Clone, Copy, PartialEq, Eq, Debug, Structural)]
pub struct Position {
    pub line: usize,
    pub line_pos: usize,
}

impl Position {
    pub fn new(line: usize, line_pos: usize) -> (r: Position)
        ensures
            r.line == line,
            r.line_pos == line_pos,
    {
        Position { line, line_pos }
    }
}

/// The classification of an error.
#[derive(Clone, Copy, PartialEq, Eq, Debug, Structural)]
pub enum ErrType {
    ParsingErr,
    EvalErr,
    TokenizingErr,
    ScanningErr,
    LogicError,
    InterpreterError,
    RuntimeError,
}

/// An error of any stage: what went wrong, of which kind, and where.
#[derive(Debug)]
pub struct LoxError {
    pub msg: String,
    pub err_type: ErrType,
    pub pos: Position,
}

impl Clone for LoxError {
    fn clone(&self) -> (r: Self)
        ensures
            r == *self,
    {
        LoxError { msg: self.msg.clone(), err_type: self.err_type, pos: self.pos }
    }
}

pub type LoxResult<A> = Result<A, LoxError>;

/// A text in double quotes, as messages show plain texts.
pub open spec fn quote(s: Seq<char>) -> Seq<char> {
    "\""@ + s + "\""@
}

pub fn quoted(s: &str) -> (r: String)
    ensures
        r@ == quote(s@),
{
    let mut r = String::from_str("\"");
    r.append(s);
    r.append("\"");
    r
}

/// The text appended to a message that carries a note on what was being done.
pub open spec fn while_suffix(info: Option<String>) -> Seq<char> {
    match info {
        Some(i) => "\nError occured while: "@ + i@,
        None => Seq::empty(),
    }
}

/// Collects the parts of a `LoxError` one by one.
#[derive(Debug)]
pub struct ErrBuilder {
    pub err_type: Option<ErrType>,
    pub message: Option<String>,
    pub while_info: Option<String>,
    pub pos: Option<Position>,
}

impl ErrBuilder {
    /// The builder holds every part that `build` needs.
    pub open spec fn is_complete(&self) -> bool {
        &&& self.err_type is Some
        &&& self.message is Some
        &&& self.pos is Some
    }

    /// `e` is what `build` makes of this builder.
    pub open spec fn builds(&self, e: LoxError) -> bool {
        &&& e.msg@ == self.message->Some_0@ + while_suffix(self.while_info)
        &&& e.err_type == self.err_type->Some_0
        &&& e.pos == self.pos->Some_0
    }

    pub fn new() -> (r: Self)
        ensures
            r.err_type is None,
            r.message is None,
            r.while_info is None,
            r.pos is None,
    {
        ErrBuilder { err_type: None, while_info: None, message: None, pos: None }
    }

    pub fn of_type(self, err_type: ErrType) -> (r: Self)
        ensures
            r == (ErrBuilder { err_type: Some(err_type), ..self }),
    {
        ErrBuilder { err_type: Some(err_type), ..self }
    }

    pub fn with_message(self, message: String) -> (r: Self)
        ensures
            r == (ErrBuilder { message: Some(message), ..self }),
    {
        ErrBuilder { message: Some(message), ..self }
    }

    pub fn with_pos(self, pos: Position) -> (r: Self)
        ensures
            r == (ErrBuilder { pos: Some(pos), ..self }),
    {
        ErrBuilder { pos: Some(pos), ..self }
    }

    /// Places the error at the start of the text, for errors that have no place of their own.
    pub fn without_pos(self) -> (r: Self)
        ensures
            r == (ErrBuilder { pos: Some(Position { line: 0, line_pos: 0 }), ..self }),
    {
        ErrBuilder { pos: Some(Position { line: 0, line_pos: 0 }), ..self }
    }

    pub fn at(self, pos: Position) -> (r: Self)
        ensures
            r == (ErrBuilder { pos: Some(pos), ..self }),
    {
        ErrBuilder { pos: Some(pos), ..self }
    }

    pub fn expected_but_found(self, expected: &str, found: &str) -> (r: Self)
        ensures
            r.message is Some,
            r.message->Some_0@ == "Expected "@ + quote(expected@) + ", but found "@ + found@ + "."@,
            r.err_type == self.err_type,
            r.while_info == self.while_info,
            r.pos == self.pos,
    {
        let mut m = String::from_str("Expected ");
        let q = quoted(expected);
        m.append(q.as_str());
        m.append(", but found ");
        m.append(found);
        m.append(".");
        assert(m@ =~= "Expected "@ + quote(expected@) + ", but found "@ + found@ + "."@);
        ErrBuilder { message: Some(m), ..self }
    }

    /// `a is "b".`, as with `a` already rendered and `b` a plain text.
    pub fn is_not(self, a: &str, b: &str) -> (r: Self)
        ensures
            r.message is Some,
            r.message->Some_0@ == a@ + " is not "@ + quote(b@) + "."@,
            r.err_type == self.err_type,
            r.while_info == self.while_info,
            r.pos == self.pos,
    {
        let mut m = String::from_str(a);
        m.append(" is not ");
        let q = quoted(b);
        m.append(q.as_str());
        m.append(".");
        assert(m@ =~= a@ + " is not "@ + quote(b@) + "."@);
        ErrBuilder { message: Some(m), ..self }
    }

    /// Notes what was being done, in quotes.
    pub fn while_(self, info: &str) -> (r: Self)
        ensures
            r.while_info is Some,
            r.while_info->Some_0@ == quote(info@),
            r.err_type == self.err_type,
            r.message == self.message,
            r.pos == self.pos,
    {
        ErrBuilder { while_info: Some(quoted(info)), ..self }
    }

    pub fn expected_found_nothing(self, expected: &str) -> (r: Self)
        ensures
            r.message is Some,
            r.message->Some_0@ == "Expected "@ + quote(expected@) + ", but found nothing."@,
            r.err_type == self.err_type,
            r.while_info == self.while_info,
            r.pos == self.pos,
    {
        let mut m = String::from_str("Expected ");
        let q = quoted(expected);
        m.append(q.as_str());
        m.append(", but found nothing.");
        assert(m@ =~= "Expected "@ + quote(expected@) + ", but found nothing."@);
        ErrBuilder { message: Some(m), ..self }
    }

    /// `Can't perform "a" on b and c`, with `b` and `c` already rendered.
    pub fn cant_perform_a_on_b_and_c(self, a: &str, b: &str, c: &str) -> (r: Self)
        ensures
            r.message is Some,
            r.message->Some_0@ == "Can't perform "@ + quote(a@) + " on "@ + b@ + " and "@ + c@,
            r.err_type == self.err_type,
            r.while_info == self.while_info,
            r.pos == self.pos,
    {
        let mut m = String::from_str("Can't perform ");
        let q = quoted(a);
        m.append(q.as_str());
        m.append(" on ");
        m.append(b);
        m.append(" and ");
        m.append(c);
        assert(m@ =~= "Can't perform "@ + quote(a@) + " on "@ + b@ + " and "@ + c@);
        ErrBuilder { message: Some(m), ..self }
    }

    pub fn reset(self) -> (r: Self)
        ensures
            r.err_type is None,
            r.message is None,
            r.while_info is None,
            r.pos is None,
    {
        ErrBuilder { err_type: None, while_info: None, message: None, pos: None }
    }

    pub fn to_result<A>(self) -> (r: LoxResult<A>)
        requires
            self.is_complete(),
        ensures
            r is Err,
            self.builds(r->Err_0),
    {
        Err(self.build())
    }

    pub fn build(self) -> (r: LoxError)
        requires
            self.is_complete(),
        ensures
            self.builds(r),
    {
        let mut msg = self.message.unwrap();
        let ghost m0 = msg@;
        match self.while_info {
            Some(info) => {
                msg.append("\nError occured while: ");
                msg.append(info.as_str());
                assert(msg@ =~= m0 + ("\nError occured while: "@ + info@));
            },
            None => {
                assert(msg@ =~= m0 + Seq::<char>::empty());
            },
        }
        LoxError { msg, err_type: self.err_type.unwrap(), pos: self.pos.unwrap() }
    }
}

} // verus!
