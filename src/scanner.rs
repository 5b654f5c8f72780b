//! The scanner: from source text to a sequence of positioned tokens ending in one `Eof`.

use vstd::prelude::*;
use vstd::string::*;
use crate::errors::{ErrBuilder, ErrType, LoxError, LoxResult, Position};
use crate::lexical::{classify, is_valid_variable_char, is_word_char};
use crate::readers::{line_end, pos_at, TextReader};
use crate::text::{chars_of, string_of_chars};
use crate::tokens::{LoxValue, Punct, TokM, TokV, Token, TokenValue, ValM};

verus! {

/// What an error amounts to in the contracts: its kind and its position.
pub type ErrM = (ErrType, Position);

/// What the character at an index starts.
pub enum Step {
    /// Nothing to emit: reading goes on at the index given.
    Skip(nat),
    /// A token, and the index just past it.
    Tok(TokV, nat),
    /// A scanning error at the index.
    Fail,
}

/// The index of the first `"` at or after `i`, or the length of `s` where there is none.
pub open spec fn quote_end(s: Seq<char>, i: nat) -> nat
    decreases s.len() - i,
{
    if i >= s.len() || s[i as int] == '"' {
        i
    } else {
        quote_end(s, i + 1)
    }
}

/// The index of the first character at or after `i` that cannot belong to a word,
/// or the length of `s`.
pub open spec fn word_end(s: Seq<char>, i: nat) -> nat
    decreases s.len() - i,
{
    if i >= s.len() || !is_word_char(s[i as int]) {
        i
    } else {
        word_end(s, i + 1)
    }
}

/// A mark of one character, or of two where the next character is `=`.
pub open spec fn one_or_two(s: Seq<char>, i: nat, one: Punct, two: Punct) -> Step {
    if i + 1 < s.len() && s[i + 1int] == '=' {
        Step::Tok(TokV::Punct(two), i + 2)
    } else {
        Step::Tok(TokV::Punct(one), i + 1)
    }
}

pub open spec fn is_blank(c: char) -> bool {
    c == ' ' || c == '\t' || c == '\n' || c == '\r'
}

/// What the character at index `i` (within `s`) starts.
pub open spec fn step(s: Seq<char>, i: nat) -> Step {
    let c = s[i as int];
    if c == '(' {
        Step::Tok(TokV::Punct(Punct::LeftParen), i + 1)
    } else if c == ')' {
        Step::Tok(TokV::Punct(Punct::RightParen), i + 1)
    } else if c == '{' {
        Step::Tok(TokV::Punct(Punct::LeftBrace), i + 1)
    } else if c == '}' {
        Step::Tok(TokV::Punct(Punct::RightBrace), i + 1)
    } else if c == ',' {
        Step::Tok(TokV::Punct(Punct::Comme), i + 1)
    } else if c == '.' {
        Step::Tok(TokV::Punct(Punct::Dot), i + 1)
    } else if c == '-' {
        Step::Tok(TokV::Punct(Punct::Minus), i + 1)
    } else if c == '+' {
        Step::Tok(TokV::Punct(Punct::Plus), i + 1)
    } else if c == ';' {
        Step::Tok(TokV::Punct(Punct::Semicolon), i + 1)
    } else if c == '*' {
        Step::Tok(TokV::Punct(Punct::Star), i + 1)
    } else if c == '!' {
        one_or_two(s, i, Punct::Bang, Punct::BangEqual)
    } else if c == '=' {
        one_or_two(s, i, Punct::Equal, Punct::EqualEqual)
    } else if c == '<' {
        one_or_two(s, i, Punct::Less, Punct::LessEqual)
    } else if c == '>' {
        one_or_two(s, i, Punct::Greater, Punct::GreaterEqual)
    } else if c == '/' {
        if i + 1 < s.len() && s[i + 1int] == '/' {
            Step::Skip(line_end(s, i + 2int) as nat)
        } else {
            Step::Tok(TokV::Punct(Punct::Slash), i + 1)
        }
    } else if is_blank(c) {
        Step::Skip(i + 1)
    } else if c == '"' {
        let q = quote_end(s, i + 1);
        if q < s.len() {
            Step::Tok(TokV::Val(ValM::Str(s.subrange(i + 1int, q as int))), q + 1)
        } else {
            Step::Fail
        }
    } else if is_word_char(c) {
        let e = word_end(s, i + 1);
        match classify(s.subrange(i as int, e as int)) {
            Some(t) => Step::Tok(t, e),
            None => Step::Fail,
        }
    } else {
        Step::Fail
    }
}

/// The next token at or after index `i`, and the index just past it.
pub open spec fn next_tok(s: Seq<char>, i: nat) -> Result<(TokM, nat), ErrM>
    decreases s.len() - i,
{
    if i >= s.len() {
        Ok((TokM { val: TokV::Punct(Punct::Eof), pos: pos_at(s, i as int) }, i))
    } else {
        match step(s, i) {
            Step::Skip(j) => if j <= i || j > s.len() {
                Err((ErrType::InterpreterError, pos_at(s, i as int)))
            } else {
                next_tok(s, j)
            },
            Step::Tok(t, j) => Ok((TokM { val: t, pos: pos_at(s, i as int) }, j)),
            Step::Fail => Err((ErrType::ScanningErr, pos_at(s, i as int))),
        }
    }
}

/// The tokens of `s` from index `i` on, the last of them the single `Eof`.
pub open spec fn scan_from(s: Seq<char>, i: nat) -> Result<Seq<TokM>, ErrM>
    decreases s.len() - i,
{
    match next_tok(s, i) {
        Err(e) => Err(e),
        Ok((t, j)) => if t.val == TokV::Punct(Punct::Eof) {
            Ok(seq![t])
        } else if j <= i || j > s.len() {
            Err((ErrType::InterpreterError, t.pos))
        } else {
            match scan_from(s, j) {
                Ok(rest) => Ok(seq![t] + rest),
                Err(e) => Err(e),
            }
        },
    }
}

/// The tokens of a whole source text.
pub open spec fn scan_text(s: Seq<char>) -> Result<Seq<TokM>, ErrM> {
    scan_from(s, 0)
}

pub open spec fn tokens_view(v: Seq<Token>) -> Seq<TokM> {
    v.map_values(|t: Token| t@)
}

/// The outcome `r` is what the spec outcome `m` describes.
pub open spec fn scan_agrees(m: Result<Seq<TokM>, ErrM>, r: LoxResult<ScannerOutput>) -> bool {
    match r {
        Ok(out) => m is Ok && tokens_view(out.tokens@) == m->Ok_0,
        Err(e) => m is Err && (e.err_type, e.pos) == m->Err_0,
    }
}

pub struct ScannerOutput {
    pub tokens: Vec<Token>,
}

pub struct Scanner {
    pub reader: TextReader,
}

impl Scanner {
    pub fn new(source: String) -> (r: Self)
        ensures
            r.reader.wf(),
            r.reader.pos == 0,
            r.reader.source@ == source@,
    {
        Scanner { reader: TextReader::from_vec(chars_of(source.as_str())) }
    }

    /// Scans the rest of the text; from a new scanner, the whole text.
    pub fn scan(self) -> (r: LoxResult<ScannerOutput>)
        requires
            self.reader.wf(),
        ensures
            scan_agrees(scan_from(self.reader.source@, self.reader.pos as nat), r),
    {
        let mut this = self;
        let ghost s = this.reader.source@;
        let ghost start = this.reader.pos as nat;
        let mut tokens: Vec<Token> = Vec::new();
        loop
            invariant
                this.reader.wf(),
                this.reader.source@ == s,
                s == self.reader.source@,
                start == self.reader.pos,
                start <= this.reader.pos,
                forall|i: int| 0 <= i < tokens@.len() ==> tokens@[i]@.val != TokV::Punct(Punct::Eof),
                scan_from(s, start) == (match scan_from(s, this.reader.pos as nat) {
                    Ok(rest) => Ok(tokens_view(tokens@) + rest),
                    Err(e) => Err::<Seq<TokM>, ErrM>(e),
                }),
            decreases s.len() - this.reader.pos,
        {
            let before = this.reader.pos;
            let token = match this.next_token() {
                Ok(t) => t,
                Err(e) => {
                    return Err(e);
                },
            };
            let is_eof = token.equals_punct(Punct::Eof);
            let ghost tv = token@;
            let ghost old_toks = tokens@;
            let tpos = token.pos;
            tokens.push(token);
            assert(tokens_view(tokens@) =~= tokens_view(old_toks) + seq![tv]);
            if is_eof {
                return Ok(ScannerOutput { tokens });
            }
            if this.reader.pos <= before {
                return ErrBuilder::new().at(tpos).of_type(ErrType::InterpreterError).with_message(
                    String::from_str("The scanner made no progress."),
                ).to_result();
            }
            proof {
                match scan_from(s, this.reader.pos as nat) {
                    Ok(rest) => {
                        assert(tokens_view(old_toks) + (seq![tv] + rest) =~= tokens_view(tokens@)
                            + rest);
                    },
                    Err(e) => {},
                }
            }
        }
    }

    /// Reads past blanks and comments, then reads one token.
    fn next_token(&mut self) -> (r: LoxResult<Token>)
        requires
            old(self).reader.wf(),
        ensures
            final(self).reader.wf(),
            final(self).reader.source@ == old(self).reader.source@,
            old(self).reader.pos <= final(self).reader.pos,
            match next_tok(old(self).reader.source@, old(self).reader.pos as nat) {
                Ok((t, j)) => r is Ok && r->Ok_0@ == t && final(self).reader.pos == j,
                Err(e) => r is Err && (r->Err_0.err_type, r->Err_0.pos) == e,
            },
    {
        let ghost s = self.reader.source@;
        loop
            invariant
                self.reader.wf(),
                self.reader.source@ == s,
                s == old(self).reader.source@,
                old(self).reader.pos <= self.reader.pos,
                next_tok(s, self.reader.pos as nat) == next_tok(s, old(self).reader.pos as nat),
            decreases s.len() - self.reader.pos,
        {
            let pos = self.reader.curr_pos();
            match self.reader.peek() {
                None => {
                    return Ok(Punct::Eof.at(pos));
                },
                Some(c) => {
                    if c == ' ' || c == '\t' || c == '\n' || c == '\r' {
                        self.reader.advance();
                    } else if c == '/' && self.next_is('/') {
                        proof {
                            crate::readers::lemma_line_end_bounds(s, self.reader.pos + 2);
                        }
                        self.reader.advance();
                        self.reader.advance();
                        self.reader.advance_until_newline();
                    } else {
                        return self.token_at(c, pos);
                    }
                },
            }
        }
    }

    /// Whether the character after the current one is `c`.
    fn next_is(&self, c: char) -> (r: bool)
        requires
            self.reader.wf(),
        ensures
            r == (self.reader.pos + 1 < self.reader.source@.len()
                && self.reader.source@[self.reader.pos + 1] == c),
    {
        match self.reader.peek_n(1) {
            Some(d) => d == c,
            None => false,
        }
    }

    /// Reads the token that the current character starts.
    fn token_at(&mut self, c: char, pos: Position) -> (r: LoxResult<Token>)
        requires
            old(self).reader.wf(),
            old(self).reader.pos < old(self).reader.source@.len(),
            c == old(self).reader.source@[old(self).reader.pos as int],
            pos == pos_at(old(self).reader.source@, old(self).reader.pos as int),
            !(step(old(self).reader.source@, old(self).reader.pos as nat) is Skip),
        ensures
            final(self).reader.wf(),
            final(self).reader.source@ == old(self).reader.source@,
            old(self).reader.pos <= final(self).reader.pos,
            match step(old(self).reader.source@, old(self).reader.pos as nat) {
                Step::Tok(t, j) => r is Ok && r->Ok_0@ == (TokM { val: t, pos }) && final(self).reader.pos == j,
                _ => r is Err && r->Err_0.err_type == ErrType::ScanningErr && r->Err_0.pos == pos,
            },
    {
        match c {
            '(' => self.single(Punct::LeftParen, pos),
            ')' => self.single(Punct::RightParen, pos),
            '{' => self.single(Punct::LeftBrace, pos),
            '}' => self.single(Punct::RightBrace, pos),
            ',' => self.single(Punct::Comme, pos),
            '.' => self.single(Punct::Dot, pos),
            '-' => self.single(Punct::Minus, pos),
            '+' => self.single(Punct::Plus, pos),
            ';' => self.single(Punct::Semicolon, pos),
            '*' => self.single(Punct::Star, pos),
            '/' => self.single(Punct::Slash, pos),
            '!' => self.one_or_two(Punct::Bang, Punct::BangEqual, pos),
            '=' => self.one_or_two(Punct::Equal, Punct::EqualEqual, pos),
            '<' => self.one_or_two(Punct::Less, Punct::LessEqual, pos),
            '>' => self.one_or_two(Punct::Greater, Punct::GreaterEqual, pos),
            '"' => self.handle_string_literal(pos),
            _ => {
                if is_valid_variable_char(c) {
                    self.handle_var_or_val_literal(pos)
                } else {
                    ErrBuilder::new().at(pos).of_type(ErrType::ScanningErr).with_message(
                        String::from_str("Unrecognized character."),
                    ).to_result()
                }
            },
        }
    }

    fn single(&mut self, p: Punct, pos: Position) -> (r: LoxResult<Token>)
        requires
            old(self).reader.wf(),
            old(self).reader.pos < old(self).reader.source@.len(),
        ensures
            final(self).reader.wf(),
            final(self).reader.source@ == old(self).reader.source@,
            final(self).reader.pos == old(self).reader.pos + 1,
            r is Ok && r->Ok_0@ == (TokM { val: TokV::Punct(p), pos }),
    {
        self.reader.advance();
        Ok(p.at(pos))
    }

    fn one_or_two(&mut self, one: Punct, two: Punct, pos: Position) -> (r: LoxResult<Token>)
        requires
            old(self).reader.wf(),
            old(self).reader.pos < old(self).reader.source@.len(),
        ensures
            final(self).reader.wf(),
            final(self).reader.source@ == old(self).reader.source@,
            match one_or_two(old(self).reader.source@, old(self).reader.pos as nat, one, two) {
                Step::Tok(t, j) => r is Ok && r->Ok_0@ == (TokM { val: t, pos }) && final(self).reader.pos == j,
                _ => false,
            },
    {
        let eq_follows = self.next_is('=');
        self.reader.advance();
        if eq_follows {
            self.reader.advance();
            Ok(two.at(pos))
        } else {
            Ok(one.at(pos))
        }
    }

    /// Reads a quoted string; the current character is its opening quote.
    fn handle_string_literal(&mut self, pos: Position) -> (r: LoxResult<Token>)
        requires
            old(self).reader.wf(),
            old(self).reader.pos < old(self).reader.source@.len(),
        ensures
            final(self).reader.wf(),
            final(self).reader.source@ == old(self).reader.source@,
            old(self).reader.pos <= final(self).reader.pos,
            ({
                let s = old(self).reader.source@;
                let i = old(self).reader.pos as nat;
                let q = quote_end(s, i + 1);
                if q < s.len() {
                    r is Ok && r->Ok_0@ == (TokM {
                        val: TokV::Val(ValM::Str(s.subrange(i + 1int, q as int))),
                        pos,
                    }) && final(self).reader.pos == q + 1
                } else {
                    r is Err && r->Err_0.err_type == ErrType::ScanningErr && r->Err_0.pos == pos
                }
            }),
    {
        let ghost s = self.reader.source@;
        let ghost i = self.reader.pos as nat;
        self.reader.advance();
        let mut buffer: Vec<char> = Vec::new();
        loop
            invariant
                self.reader.wf(),
                self.reader.source@ == s,
                s == old(self).reader.source@,
                i == old(self).reader.pos,
                i + 1 <= self.reader.pos,
                buffer@ == s.subrange(i + 1int, self.reader.pos as int),
                quote_end(s, i + 1) == quote_end(s, self.reader.pos as nat),
            decreases s.len() - self.reader.pos,
        {
            match self.reader.advance() {
                Some(c) => {
                    if c == '"' {
                        let text = string_of_chars(&buffer);
                        return Ok(Token { val: TokenValue::Val(LoxValue::String(text)), pos });
                    }
                    buffer.push(c);
                    assert(buffer@ =~= s.subrange(i + 1int, self.reader.pos as int));
                },
                None => {
                    return ErrBuilder::new().at(pos).of_type(ErrType::ScanningErr).with_message(
                        String::from_str("Unterminated string."),
                    ).to_result();
                },
            }
        }
    }

    /// Reads a word and classifies it; the current character may belong to a word.
    fn handle_var_or_val_literal(&mut self, pos: Position) -> (r: LoxResult<Token>)
        requires
            old(self).reader.wf(),
            old(self).reader.pos < old(self).reader.source@.len(),
        ensures
            final(self).reader.wf(),
            final(self).reader.source@ == old(self).reader.source@,
            old(self).reader.pos <= final(self).reader.pos,
            ({
                let s = old(self).reader.source@;
                let i = old(self).reader.pos as nat;
                let e = word_end(s, i + 1);
                match classify(s.subrange(i as int, e as int)) {
                    Some(t) => r is Ok && r->Ok_0@ == (TokM { val: t, pos })
                        && final(self).reader.pos == e,
                    None => r is Err && r->Err_0.err_type == ErrType::ScanningErr
                        && r->Err_0.pos == pos,
                }
            }),
    {
        let ghost s = self.reader.source@;
        let ghost i = self.reader.pos as nat;
        let mut buffer: Vec<char> = Vec::new();
        let first = self.reader.advance();
        match first {
            Some(c) => buffer.push(c),
            None => {},
        }
        assert(buffer@ =~= s.subrange(i as int, self.reader.pos as int));
        loop
            invariant
                self.reader.wf(),
                self.reader.source@ == s,
                s == old(self).reader.source@,
                i == old(self).reader.pos,
                i + 1 <= self.reader.pos,
                buffer@ == s.subrange(i as int, self.reader.pos as int),
                word_end(s, i + 1) == word_end(s, self.reader.pos as nat),
            ensures
                self.reader.wf(),
                self.reader.source@ == s,
                i + 1 <= self.reader.pos,
                buffer@ == s.subrange(i as int, self.reader.pos as int),
                word_end(s, i + 1) == word_end(s, self.reader.pos as nat),
                word_end(s, self.reader.pos as nat) == self.reader.pos,
            decreases s.len() - self.reader.pos,
        {
            match self.reader.peek() {
                Some(c) => {
                    if !is_valid_variable_char(c) {
                        break;
                    }
                    self.reader.advance();
                    buffer.push(c);
                    assert(buffer@ =~= s.subrange(i as int, self.reader.pos as int));
                },
                None => {
                    break;
                },
            }
        }
        assert(word_end(s, self.reader.pos as nat) == self.reader.pos);
        let word = string_of_chars(&buffer);
        Token::from_string(word, pos)
    }
}

} // verus!
