//! The position of the first token of an expression.

use vstd::prelude::*;
use crate::errors::Position;
use crate::semantics::locate;
use crate::structure::{
    comp_m, eqlty_m, expr_m, factor_m, term_m, unary_m, Comp, Eqlty, Expr, Factor, Term, Unary,
};

verus! {

pub fn locate_expr(e: &Expr) -> (r: Position)
    ensures
        r == locate(expr_m(e)),
    decreases e,
{
    match e {
        Expr::Eqlty(q) => locate_eqlty(q),
        Expr::Call(t, _) => t.pos,
    }
}

pub fn locate_eqlty(q: &Eqlty) -> (r: Position)
    ensures
        r == locate(eqlty_m(q)),
    decreases q,
{
    locate_comp(&q.first)
}

pub fn locate_comp(c: &Comp) -> (r: Position)
    ensures
        r == locate(comp_m(c)),
    decreases c,
{
    locate_term(&c.first)
}

pub fn locate_term(t: &Term) -> (r: Position)
    ensures
        r == locate(term_m(t)),
    decreases t,
{
    locate_factor(&t.first)
}

pub fn locate_factor(f: &Factor) -> (r: Position)
    ensures
        r == locate(factor_m(f)),
    decreases f,
{
    locate_unary(&f.first)
}

pub fn locate_unary(u: &Unary) -> (r: Position)
    ensures
        r == locate(unary_m(u)),
    decreases u,
{
    match u {
        Unary::Final(Some(op), _) => op.pos,
        Unary::Final(None, t) => t.pos,
        Unary::Recursive(Some(op), _) => op.pos,
        Unary::Recursive(None, e) => locate_expr(e),
        Unary::Call(Some(op), _, _) => op.pos,
        Unary::Call(None, t, _) => t.pos,
    }
}

} // verus!
