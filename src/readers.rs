//! Cursors over the characters of a source text and over a token sequence.

use vstd::prelude::*;
use crate::errors::Position;
use crate::tokens::Token;

verus! {

/// The line and the column reached after reading the first `i` characters of `s`.
pub open spec fn line_col(s: Seq<char>, i: int) -> (nat, nat)
    decreases i,
{
    if i <= 0 {
        (0, 0)
    } else {
        let (l, c) = line_col(s, i - 1);
        if s[i - 1] == '\n' {
            (l + 1, 0)
        } else {
            (l, c + 1)
        }
    }
}

pub proof fn lemma_line_col_bounded(s: Seq<char>, i: int)
    requires
        0 <= i,
    ensures
        line_col(s, i).0 <= i,
        line_col(s, i).1 <= i,
    decreases i,
{
    if i > 0 {
        lemma_line_col_bounded(s, i - 1);
    }
}

/// The position of the character at index `i` of `s`.
pub open spec fn pos_at(s: Seq<char>, i: int) -> Position {
    Position { line: line_col(s, i).0 as usize, line_pos: line_col(s, i).1 as usize }
}

/// A forward cursor over characters that knows the line and the column it stands at.
pub struct TextReader {
    pub source: Vec<char>,
    pub pos: usize,
    pub current_line: usize,
    pub line_pos: usize,
}

impl TextReader {
    /// The cursor stands inside the text, at the line and column its index gives.
    pub open spec fn wf(&self) -> bool {
        &&& self.pos <= self.source@.len()
        &&& self.current_line == line_col(self.source@, self.pos as int).0
        &&& self.line_pos == line_col(self.source@, self.pos as int).1
    }

    pub fn from_vec(v: Vec<char>) -> (r: Self)
        ensures
            r.wf(),
            r.source@ == v@,
            r.pos == 0,
    {
        TextReader { source: v, pos: 0, current_line: 0, line_pos: 0 }
    }

    pub fn curr_pos(&self) -> (r: Position)
        requires
            self.wf(),
        ensures
            r == pos_at(self.source@, self.pos as int),
    {
        Position { line: self.current_line, line_pos: self.line_pos }
    }

    pub fn get_pos(&self) -> (r: usize)
        ensures
            r == self.pos,
    {
        self.pos
    }

    pub fn peek(&self) -> (r: Option<char>)
        requires
            self.wf(),
        ensures
            self.pos < self.source@.len() ==> r == Some(self.source@[self.pos as int]),
            self.pos >= self.source@.len() ==> r is None,
    {
        if self.pos < self.source.len() {
            Some(self.source[self.pos])
        } else {
            None
        }
    }

    pub fn peek_n(&self, n: usize) -> (r: Option<char>)
        requires
            self.wf(),
        ensures
            self.pos + n < self.source@.len() ==> r == Some(self.source@[self.pos + n]),
            self.pos + n >= self.source@.len() ==> r is None,
    {
        if n < self.source.len() - self.pos {
            Some(self.source[self.pos + n])
        } else {
            None
        }
    }

    pub fn previous(&self) -> (r: Option<char>)
        requires
            self.wf(),
        ensures
            self.pos >= 1 ==> r == Some(self.source@[self.pos - 1]),
            self.pos == 0 ==> r is None,
    {
        if self.pos >= 1 {
            Some(self.source[self.pos - 1])
        } else {
            None
        }
    }

    /// Returns the next character and moves past it.
    pub fn advance(&mut self) -> (r: Option<char>)
        requires
            old(self).wf(),
        ensures
            final(self).wf(),
            final(self).source == old(self).source,
            old(self).pos < old(self).source@.len() ==> r == Some(old(self).source@[old(self).pos as int])
                && final(self).pos == old(self).pos + 1,
            old(self).pos >= old(self).source@.len() ==> r is None && final(self).pos == old(self).pos,
    {
        if self.pos < self.source.len() {
            let c = self.source[self.pos];
            proof {
                lemma_line_col_bounded(self.source@, self.pos as int);
            }
            self.pos = self.pos + 1;
            if c == '\n' {
                self.current_line = self.current_line + 1;
                self.line_pos = 0;
            } else {
                self.line_pos = self.line_pos + 1;
            }
            Some(c)
        } else {
            None
        }
    }

    /// Moves forward up to the next newline, which stays unread, or to the end.
    pub fn advance_until_newline(&mut self)
        requires
            old(self).wf(),
        ensures
            final(self).wf(),
            final(self).source == old(self).source,
            final(self).pos == line_end(old(self).source@, old(self).pos as int),
    {
        while self.pos < self.source.len() && self.source[self.pos] != '\n'
            invariant
                self.wf(),
                self.source == old(self).source,
                old(self).pos <= self.pos,
                line_end(self.source@, self.pos as int) == line_end(
                    old(self).source@,
                    old(self).pos as int,
                ),
            decreases self.source.len() - self.pos,
        {
            self.advance();
        }
    }
}

/// The index of the first newline at or after `i`, or the length of `s` where there is none.
pub open spec fn line_end(s: Seq<char>, i: int) -> int
    decreases s.len() - i,
{
    if i >= s.len() || i < 0 || s[i] == '\n' {
        if i < 0 { 0 } else { i }
    } else {
        line_end(s, i + 1)
    }
}

pub proof fn lemma_line_end_bounds(s: Seq<char>, i: int)
    requires
        0 <= i <= s.len(),
    ensures
        i <= line_end(s, i) <= s.len(),
    decreases s.len() - i,
{
    if i < s.len() && s[i] != '\n' {
        lemma_line_end_bounds(s, i + 1);
    }
}

/// A cursor over a token sequence, addressed by index.
pub struct TokenReader {
    pub tokens: Vec<Token>,
}

impl TokenReader {
    pub fn new(tokens: Vec<Token>) -> (r: Self)
        ensures
            r.tokens@ == tokens@,
    {
        TokenReader { tokens }
    }

    /// The token at index `i`, if there is one.
    pub fn peek(&self, i: usize) -> (r: Option<&Token>)
        ensures
            i < self.tokens@.len() ==> r == Some(&self.tokens@[i as int]),
            i >= self.tokens@.len() ==> r is None,
    {
        if i < self.tokens.len() {
            Some(&self.tokens[i])
        } else {
            None
        }
    }

    /// The token `n` places after index `i`, if there is one.
    pub fn peek_n(&self, i: usize, n: usize) -> (r: Option<&Token>)
        ensures
            i + n < self.tokens@.len() ==> r == Some(&self.tokens@[i + n]),
            i + n >= self.tokens@.len() ==> r is None,
    {
        if i < self.tokens.len() && n < self.tokens.len() - i {
            Some(&self.tokens[i + n])
        } else {
            None
        }
    }

    /// The token before index `i`, if there is one.
    pub fn previous(&self, i: usize) -> (r: Option<&Token>)
        ensures
            1 <= i <= self.tokens@.len() ==> r == Some(&self.tokens@[i - 1]),
            !(1 <= i <= self.tokens@.len()) ==> r is None,
    {
        if i >= 1 && i <= self.tokens.len() {
            Some(&self.tokens[i - 1])
        } else {
            None
        }
    }
}

} // verus!
