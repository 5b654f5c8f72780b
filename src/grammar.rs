//! The grammar, as functions from a token sequence and an index to what is read there
//! and the index just past it.
//!
//! ```text
//! program    := statement* Eof
//! statement  := 'print' expr | 'if' '(' expr ')' block | 'var' ID '=' expr
//!             | 'while' '(' expr ')' block | 'fun' ID '(' params ')' block
//!             | 'return' expr | 'class' ID '{' (statement ';')* '}' | expr
//! block      := '{' statement* '}'
//! expr       := equality
//! equality   := comparison (('==' | '!=') comparison)*
//! comparison := term (('<' | '<=' | '>' | '>=') term)*
//! term       := factor (('+' | '-') factor)*
//! factor     := unary (('*' | '/') unary)*
//! unary      := ('-')? (value | identifier) | ('-')? '(' expr ')'
//!             | ('-')? identifier '(' (expr (',' expr)*)? ')'
//! ```
//!
//! Each statement is followed by `;`, which may be left out after a statement that ends
//! in a block and after the last statement of a program or a block.
//!
//! An error is placed at the last token read, or at the first one where none was read.

use vstd::prelude::*;
use crate::errors::{ErrType, Position};
use crate::scanner::ErrM;
use crate::structure::{ClassM, ExprM, FunM, StatementKind, StmtM, UnaryKind};
use crate::tokens::{is_id, is_punct, is_val, Kwd, Punct, TokM, TokV};

verus! {

/// What a grammar rule reads at an index: the result and the index past it, or an error.
pub type PR<A> = Result<(A, nat), ErrM>;

/// Where an error found at index `i` is placed.
pub open spec fn err_pos(ts: Seq<TokM>, i: nat) -> Position {
    if 1 <= i && i <= ts.len() {
        ts[i - 1].pos
    } else if i < ts.len() {
        ts[i as int].pos
    } else {
        Position { line: 0, line_pos: 0 }
    }
}

pub open spec fn perr(ts: Seq<TokM>, i: nat) -> ErrM {
    (ErrType::ParsingErr, err_pos(ts, i))
}

/// An error that the rules never produce: a rule that succeeded without reading a token.
pub open spec fn stuck(ts: Seq<TokM>, i: nat) -> ErrM {
    (ErrType::InterpreterError, err_pos(ts, i))
}

/// `i < j <= ts.len()`: reading moved forward and stayed within the tokens.
pub open spec fn moved(ts: Seq<TokM>, i: nat, j: nat) -> bool {
    i < j && j <= ts.len()
}

pub open spec fn punct_at(ts: Seq<TokM>, i: nat, p: Punct) -> bool {
    i < ts.len() && is_punct(ts[i as int], p)
}

pub open spec fn expect_punct(ts: Seq<TokM>, i: nat, p: Punct) -> Result<nat, ErrM> {
    if i >= ts.len() {
        Err(perr(ts, i))
    } else if is_punct(ts[i as int], p) {
        Ok(i + 1)
    } else {
        Err(perr(ts, i + 1))
    }
}

pub open spec fn expect_ident(ts: Seq<TokM>, i: nat) -> Result<(Seq<char>, nat), ErrM> {
    if i >= ts.len() {
        Err(perr(ts, i))
    } else {
        match ts[i as int].val {
            TokV::Id(n) => Ok((n, i + 1)),
            _ => Err(perr(ts, i + 1)),
        }
    }
}

/// The kind of statement that a token starts.
pub open spec fn statement_kind(t: TokM) -> StatementKind {
    match t.val {
        TokV::Kwd(Kwd::Print) => StatementKind::Print,
        TokV::Kwd(Kwd::If) => StatementKind::If,
        TokV::Kwd(Kwd::Var) => StatementKind::Let,
        TokV::Kwd(Kwd::While) => StatementKind::WhileLoop,
        TokV::Kwd(Kwd::Fun) => StatementKind::Fun,
        TokV::Kwd(Kwd::Return) => StatementKind::Return,
        TokV::Kwd(Kwd::Class) => StatementKind::Class,
        _ => StatementKind::Expr,
    }
}

/// A missing token: the error stands at the token at `j`, the one that ends the input,
/// where there is one.
pub open spec fn nothing(ts: Seq<TokM>, j: nat) -> ErrM {
    if j < ts.len() {
        (ErrType::ParsingErr, ts[j as int].pos)
    } else {
        perr(ts, j)
    }
}

/// A literal value or an identifier.
pub open spec fn is_operand(t: TokM) -> bool {
    is_id(t) || is_val(t)
}

/// The shape of the operand at index `i`, told from up to three tokens.
pub open spec fn unary_kind(ts: Seq<TokM>, i: nat) -> Result<UnaryKind, ErrM> {
    if i + 1 >= ts.len() {
        Err(nothing(ts, i))
    } else {
        let t1 = ts[i as int];
        let t2 = ts[i + 1int];
        if is_punct(t1, Punct::Minus) {
            if is_punct(t2, Punct::LeftParen) {
                Ok(UnaryKind::Recursive(true))
            } else if i + 2 >= ts.len() {
                Err(nothing(ts, i + 1))
            } else if is_id(t2) && is_punct(ts[i + 2int], Punct::LeftParen) {
                Ok(UnaryKind::Call(true))
            } else if is_operand(t2) {
                Ok(UnaryKind::Final(true))
            } else {
                Err(perr(ts, i))
            }
        } else if is_punct(t1, Punct::LeftParen) {
            Ok(UnaryKind::Recursive(false))
        } else if is_id(t1) && is_punct(t2, Punct::LeftParen) {
            Ok(UnaryKind::Call(false))
        } else if is_operand(t1) {
            Ok(UnaryKind::Final(false))
        } else {
            Err(perr(ts, i))
        }
    }
}

/// Statements that end in a block: they need no `;` after them.
pub open spec fn ends_in_block(s: StmtM) -> bool {
    s is If || s is While || s is Fun || s is Class
}

/// Where reading goes on after a statement that ends at `j`: past a `;`; at `j` itself
/// after a block, or before the token `closer` that ends the sequence; else an error.
pub open spec fn stmt_end(ts: Seq<TokM>, j: nat, s: StmtM, closer: Punct) -> Result<nat, ErrM> {
    if punct_at(ts, j, Punct::Semicolon) {
        Ok(j + 1)
    } else if ends_in_block(s) || punct_at(ts, j, closer) {
        Ok(j)
    } else {
        expect_punct(ts, j, Punct::Semicolon)
    }
}

/// The operators of a binary layer: equality, comparison, term, factor.
pub open spec fn is_layer_op(t: TokM, lvl: nat) -> bool {
    if lvl == 0 {
        is_punct(t, Punct::EqualEqual) || is_punct(t, Punct::BangEqual)
    } else if lvl == 1 {
        is_punct(t, Punct::LessEqual) || is_punct(t, Punct::GreaterEqual) || is_punct(
            t,
            Punct::Less,
        ) || is_punct(t, Punct::Greater)
    } else if lvl == 2 {
        is_punct(t, Punct::Plus) || is_punct(t, Punct::Minus)
    } else {
        is_punct(t, Punct::Star) || is_punct(t, Punct::Slash)
    }
}

pub open spec fn rank(lvl: nat) -> int {
    if lvl >= 3 {
        3
    } else {
        6 - lvl
    }
}

pub open spec fn lead(ts: Seq<TokM>, i: nat, op: bool) -> Option<TokM> {
    if op {
        Some(ts[i as int])
    } else {
        None
    }
}

pub open spec fn unary(ts: Seq<TokM>, i: nat) -> PR<ExprM>
    decreases ts.len() - i, 1int,
{
    match unary_kind(ts, i) {
        Err(e) => Err(e),
        Ok(UnaryKind::Final(op)) => if op {
            Ok((ExprM::Final(Some(ts[i as int]), ts[i + 1int]), i + 2))
        } else {
            Ok((ExprM::Final(None, ts[i as int]), i + 1))
        },
        Ok(UnaryKind::Recursive(op)) => {
            let k: nat = if op { i + 1 } else { i };
            match expr(ts, k + 1) {
                Err(e) => Err(e),
                Ok((e, j)) => match expect_punct(ts, j, Punct::RightParen) {
                    Err(x) => Err(x),
                    Ok(m) => Ok((ExprM::Group(lead(ts, i, op), Box::new(e)), m)),
                },
            }
        },
        Ok(UnaryKind::Call(op)) => {
            let k: nat = if op { i + 1 } else { i };
            match call_args(ts, k + 1) {
                Err(e) => Err(e),
                Ok((args, j)) => Ok((ExprM::Call(lead(ts, i, op), ts[k as int], args), j)),
            }
        },
    }
}

/// The arguments of a call; the token at `i` is its `(`.
pub open spec fn call_args(ts: Seq<TokM>, i: nat) -> PR<Seq<ExprM>>
    decreases ts.len() - i, 12int,
{
    if i >= ts.len() {
        Err(perr(ts, i))
    } else if punct_at(ts, i + 1, Punct::RightParen) {
        Ok((Seq::empty(), i + 2))
    } else {
        args_from(ts, i + 1)
    }
}

/// Arguments separated by commas, then the closing `)`.
pub open spec fn args_from(ts: Seq<TokM>, i: nat) -> PR<Seq<ExprM>>
    decreases ts.len() - i, 11int,
{
    match expr(ts, i) {
        Err(e) => Err(e),
        Ok((e, j)) => if j < i {
            Err(stuck(ts, i))
        } else if punct_at(ts, j, Punct::Comme) {
            match args_from(ts, j + 1) {
                Ok((rest, k)) => Ok((seq![e] + rest, k)),
                Err(x) => Err(x),
            }
        } else {
            match expect_punct(ts, j, Punct::RightParen) {
                Ok(k) => Ok((seq![e], k)),
                Err(x) => Err(x),
            }
        },
    }
}

pub open spec fn expr(ts: Seq<TokM>, i: nat) -> PR<ExprM>
    decreases ts.len() - i, 10int,
{
    layer(ts, i, 0)
}

/// A binary layer: its first operand, then the rest of the chain.
pub open spec fn layer(ts: Seq<TokM>, i: nat, lvl: nat) -> PR<ExprM>
    decreases ts.len() - i, rank(lvl),
{
    let first = if lvl >= 3 {
        unary(ts, i)
    } else {
        layer(ts, i, lvl + 1)
    };
    match first {
        Err(e) => Err(e),
        Ok((f, j)) => if !moved(ts, i, j) {
            Err(stuck(ts, i))
        } else {
            match chain_rest(ts, j, lvl) {
                Err(e) => Err(e),
                Ok((rest, k)) => Ok((ExprM::Chain(Box::new(f), rest), k)),
            }
        },
    }
}

/// The (operator, operand) pairs of a layer from index `i` on.
pub open spec fn chain_rest(ts: Seq<TokM>, i: nat, lvl: nat) -> PR<Seq<(TokM, ExprM)>>
    decreases ts.len() - i, rank(lvl),
{
    if i < ts.len() && is_layer_op(ts[i as int], lvl) {
        let sub = if lvl >= 3 {
            unary(ts, i + 1)
        } else {
            layer(ts, i + 1, lvl + 1)
        };
        match sub {
            Err(e) => Err(e),
            Ok((s, j)) => if !moved(ts, i, j) {
                Err(stuck(ts, i))
            } else {
                match chain_rest(ts, j, lvl) {
                    Err(e) => Err(e),
                    Ok((rest, k)) => Ok((seq![(ts[i as int], s)] + rest, k)),
                }
            },
        }
    } else {
        Ok((Seq::empty(), i))
    }
}

/// `(` expr `)`.
pub open spec fn paren_expr(ts: Seq<TokM>, i: nat) -> PR<ExprM>
    decreases ts.len() - i, 12int,
{
    match expect_punct(ts, i, Punct::LeftParen) {
        Err(e) => Err(e),
        Ok(j) => match expr(ts, j) {
            Err(e) => Err(e),
            Ok((e, k)) => match expect_punct(ts, k, Punct::RightParen) {
                Err(x) => Err(x),
                Ok(m) => Ok((e, m)),
            },
        },
    }
}

pub open spec fn statement(ts: Seq<TokM>, i: nat) -> PR<StmtM>
    decreases ts.len() - i, 20int,
{
    if i >= ts.len() {
        Err(perr(ts, i))
    } else {
        let t = ts[i as int];
        match statement_kind(t) {
            StatementKind::Expr => match expr(ts, i) {
                Ok((e, j)) => Ok((StmtM::Expr(e), j)),
                Err(x) => Err(x),
            },
            StatementKind::Print => match expr(ts, i + 1) {
                Ok((e, j)) => Ok((StmtM::Print(e), j)),
                Err(x) => Err(x),
            },
            StatementKind::Return => match expr(ts, i + 1) {
                Ok((e, j)) => Ok((StmtM::Return(e), j)),
                Err(x) => Err(x),
            },
            StatementKind::If => match paren_expr(ts, i + 1) {
                Err(x) => Err(x),
                Ok((c, j)) => if !moved(ts, i, j) {
                    Err(stuck(ts, i))
                } else {
                    match block(ts, j) {
                        Err(x) => Err(x),
                        Ok((b, k)) => Ok((StmtM::If(c, b), k)),
                    }
                },
            },
            StatementKind::WhileLoop => match paren_expr(ts, i + 1) {
                Err(x) => Err(x),
                Ok((c, j)) => if !moved(ts, i, j) {
                    Err(stuck(ts, i))
                } else {
                    match block(ts, j) {
                        Err(x) => Err(x),
                        Ok((b, k)) => Ok((StmtM::While(c, b), k)),
                    }
                },
            },
            StatementKind::Let => match expect_ident(ts, i + 1) {
                Err(x) => Err(x),
                Ok((name, j)) => match expect_punct(ts, j, Punct::Equal) {
                    Err(x) => Err(x),
                    Ok(k) => match expr(ts, k) {
                        Err(x) => Err(x),
                        Ok((e, m)) => Ok((StmtM::Let(name, e), m)),
                    },
                },
            },
            StatementKind::Fun => match expect_ident(ts, i + 1) {
                Err(x) => Err(x),
                Ok((name, j)) => match params(ts, j) {
                    Err(x) => Err(x),
                    Ok((args, k)) => if !moved(ts, i, k) {
                        Err(stuck(ts, i))
                    } else {
                        match block(ts, k) {
                            Err(x) => Err(x),
                            Ok((body, m)) => Ok(
                                (StmtM::Fun(t.pos, FunM { name, args, body }), m),
                            ),
                        }
                    },
                },
            },
            StatementKind::Class => class_def(ts, i),
        }
    }
}

/// `{` (statement `;`)* `}`.
pub open spec fn block(ts: Seq<TokM>, i: nat) -> PR<Seq<StmtM>>
    decreases ts.len() - i, 21int,
{
    match expect_punct(ts, i, Punct::LeftBrace) {
        Err(x) => Err(x),
        Ok(j) => match stmts_until(ts, j) {
            Err(x) => Err(x),
            Ok((b, k)) => match expect_punct(ts, k, Punct::RightBrace) {
                Err(x) => Err(x),
                Ok(m) => Ok((b, m)),
            },
        },
    }
}

/// Statements, each followed by `;` where it does not end in a block, up to a `}` that is
/// left unread.
pub open spec fn stmts_until(ts: Seq<TokM>, i: nat) -> PR<Seq<StmtM>>
    decreases ts.len() - i, 25int,
{
    if punct_at(ts, i, Punct::RightBrace) {
        Ok((Seq::empty(), i))
    } else {
        match statement(ts, i) {
            Err(x) => Err(x),
            Ok((s, j)) => match stmt_end(ts, j, s, Punct::RightBrace) {
                Err(x) => Err(x),
                Ok(k) => if !moved(ts, i, k) {
                    Err(stuck(ts, i))
                } else {
                    match stmts_until(ts, k) {
                        Err(x) => Err(x),
                        Ok((rest, m)) => Ok((seq![s] + rest, m)),
                    }
                },
            },
        }
    }
}

/// Statements, each followed by `;` where it does not end in a block, up to the `Eof`
/// token, which is left unread.
pub open spec fn program_from(ts: Seq<TokM>, i: nat) -> PR<Seq<StmtM>>
    decreases ts.len() - i, 25int,
{
    if punct_at(ts, i, Punct::Eof) {
        Ok((Seq::empty(), i))
    } else {
        match statement(ts, i) {
            Err(x) => Err(x),
            Ok((s, j)) => match stmt_end(ts, j, s, Punct::Eof) {
                Err(x) => Err(x),
                Ok(k) => if !moved(ts, i, k) {
                    Err(stuck(ts, i))
                } else {
                    match program_from(ts, k) {
                        Err(x) => Err(x),
                        Ok((rest, m)) => Ok((seq![s] + rest, m)),
                    }
                },
            },
        }
    }
}

/// The parameter list of a function definition; the token at `i` should be its `(`.
pub open spec fn params(ts: Seq<TokM>, i: nat) -> PR<Seq<Seq<char>>>
    decreases ts.len() - i, 6int,
{
    match expect_punct(ts, i, Punct::LeftParen) {
        Err(x) => Err(x),
        Ok(j) => if punct_at(ts, j, Punct::RightParen) {
            Ok((Seq::empty(), j + 1))
        } else {
            params_from(ts, j)
        },
    }
}

/// Parameter names separated by commas, then the closing `)`.
pub open spec fn params_from(ts: Seq<TokM>, i: nat) -> PR<Seq<Seq<char>>>
    decreases ts.len() - i, 5int,
{
    match expect_ident(ts, i) {
        Err(x) => Err(x),
        Ok((n, j)) => if punct_at(ts, j, Punct::Comme) {
            match params_from(ts, j + 1) {
                Err(x) => Err(x),
                Ok((rest, k)) => Ok((seq![n] + rest, k)),
            }
        } else {
            match expect_punct(ts, j, Punct::RightParen) {
                Err(x) => Err(x),
                Ok(k) => Ok((seq![n], k)),
            }
        },
    }
}

/// A class definition; the token at `i` is `class`.
pub open spec fn class_def(ts: Seq<TokM>, i: nat) -> PR<StmtM>
    decreases ts.len() - i, 19int,
{
    if i + 1 >= ts.len() {
        Err(perr(ts, i + 1))
    } else if !is_id(ts[i + 1int]) {
        Err(perr(ts, i + 2))
    } else {
        match expect_punct(ts, i + 2, Punct::LeftBrace) {
            Err(x) => Err(x),
            Ok(j) => match members_from(ts, j) {
                Err(x) => Err(x),
                Ok(((fields, methods), k)) => match expect_punct(ts, k, Punct::RightBrace) {
                    Err(x) => Err(x),
                    Ok(m) => Ok(
                        (
                            StmtM::Class(ClassM { name: ts[i + 1int], fields, methods }),
                            m,
                        ),
                    ),
                },
            },
        }
    }
}

/// The members of a class body: `var` statements become fields, `fun` statements methods.
pub open spec fn members_from(ts: Seq<TokM>, i: nat) -> PR<
    (Seq<(Seq<char>, ExprM)>, Seq<FunM>),
>
    decreases ts.len() - i, 25int,
{
    if i >= ts.len() || punct_at(ts, i, Punct::RightBrace) {
        Ok(((Seq::empty(), Seq::empty()), i))
    } else {
        match statement(ts, i) {
            Err(x) => Err(x),
            Ok((s, j)) => match stmt_end(ts, j, s, Punct::RightBrace) {
                Err(x) => Err(x),
                Ok(k) => if !(s is Let || s is Fun) {
                    Err(perr(ts, k))
                } else if !moved(ts, i, k) {
                    Err(stuck(ts, i))
                } else {
                    match members_from(ts, k) {
                        Err(x) => Err(x),
                        Ok(((fs, ms), m)) => match s {
                            StmtM::Let(n, e) => Ok(((seq![(n, e)] + fs, ms), m)),
                            StmtM::Fun(_, f) => Ok(((fs, seq![f] + ms), m)),
                            _ => Err(stuck(ts, i)),
                        },
                    }
                },
            },
        }
    }
}

/// The statements of a whole token sequence.
pub open spec fn parse_tokens(ts: Seq<TokM>) -> Result<Seq<StmtM>, ErrM> {
    match program_from(ts, 0) {
        Ok((p, _)) => Ok(p),
        Err(e) => Err(e),
    }
}

} // verus!
