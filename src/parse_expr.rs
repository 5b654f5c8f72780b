//! The expression layers of the parser: equality, comparison, term, factor and unary.

use vstd::prelude::*;
use vstd::string::*;
use crate::errors::LoxResult;
use crate::grammar::{
    args_from, call_args, chain_rest, expr, is_layer_op, layer, lead, rank, unary, PR,
};
use crate::parser::{err_is, prepend, Parser};
use crate::scanner::ErrM;
use crate::structure::{
    boxed_m, comp_m, comp_rest_m, eqlty_m, expr_m, factor_m, factor_rest_m, opt_tok, term_m,
    term_rest_m, unary_m, unary_rest_m, Comp, Eqlty, Expr, ExprM, Factor, Term, Unary, UnaryKind,
};
use crate::tokens::{Punct, TokM, Token};

verus! {

impl Parser {
    fn lead(&self, i: usize, op: bool) -> (r: Option<Token>)
        requires
            op ==> i < self.ts().len(),
        ensures
            opt_tok(r) == lead(self.ts(), i as nat, op),
    {
        if op {
            Some(self.tok(i).clone())
        } else {
            None
        }
    }

    fn unary(&self, i: usize) -> (r: LoxResult<(Unary, usize)>)
        requires
            self.fits(),
            i <= self.ts().len(),
        ensures
            match r {
                Ok((u, j)) => unary(self.ts(), i as nat) == Ok::<(ExprM, nat), ErrM>(
                    (unary_m(&u), j as nat),
                ),
                Err(e) => err_is(unary(self.ts(), i as nat), e),
            },
        decreases self.ts().len() - i, 1int,
    {
        let kind = match self.unary_decider(i) {
            Ok(k) => k,
            Err(e) => return Err(e),
        };
        match kind {
            UnaryKind::Final(op) => {
                if op {
                    let operator = self.tok(i).clone();
                    let val = self.tok(i + 1).clone();
                    Ok((Unary::Final(Some(operator), val), i + 2))
                } else {
                    let val = self.tok(i).clone();
                    Ok((Unary::Final(None, val), i + 1))
                }
            },
            UnaryKind::Recursive(op) => {
                let k: usize = if op { i + 1 } else { i };
                let (e, j) = match self.expression(k + 1) {
                    Ok(x) => x,
                    Err(e) => return Err(e),
                };
                let m = match self.consume_punct(j, Punct::RightParen, "Parsing a parenthesized operand") {
                    Ok(m) => m,
                    Err(x) => return Err(x),
                };
                let operator = self.lead(i, op);
                Ok((Unary::Recursive(operator, Box::new(e)), m))
            },
            UnaryKind::Call(op) => {
                let k: usize = if op { i + 1 } else { i };
                let (args, j) = match self.fn_arguments(k + 1) {
                    Ok(x) => x,
                    Err(e) => return Err(e),
                };
                let operator = self.lead(i, op);
                let callee = self.tok(k).clone();
                Ok((Unary::Call(operator, callee, args), j))
            },
        }
    }

    /// The arguments of a call; the token at `i` is its `(`.
    fn fn_arguments(&self, i: usize) -> (r: LoxResult<(Vec<Box<Expr>>, usize)>)
        requires
            self.fits(),
            i <= self.ts().len(),
        ensures
            match r {
                Ok((a, j)) => call_args(self.ts(), i as nat) == Ok::<(Seq<ExprM>, nat), ErrM>(
                    (boxed_m(a@), j as nat),
                ),
                Err(e) => err_is(call_args(self.ts(), i as nat), e),
            },
        decreases self.ts().len() - i, 12int,
    {
        let ghost ts = self.ts();
        if i >= self.len() {
            return Err(self.expected_next_token_err(i, "Parsing call arguments"));
        }
        if self.punct_at(i + 1, Punct::RightParen) {
            return Ok((Vec::new(), i + 2));
        }
        let mut args: Vec<Box<Expr>> = Vec::new();
        let mut cur: usize = i + 1;
        loop
            invariant
                ts == self.ts(),
                self.fits(),
                i < cur,
                cur <= ts.len(),
                call_args(ts, i as nat) == prepend(boxed_m(args@), args_from(ts, cur as nat)),
            decreases ts.len() - cur,
        {
            let (e, j) = match self.expression(cur) {
                Ok(x) => x,
                Err(e) => return Err(e),
            };
            if j < cur {
                return Err(self.stuck_err(cur));
            }
            let ghost em = expr_m(&e);
            let ghost before = args@;
            args.push(Box::new(e));
            assert(args@.drop_last() =~= before);
            if self.punct_at(j, Punct::Comme) {
                proof {
                    match args_from(ts, (j + 1) as nat) {
                        Ok((rest, k)) => {
                            assert(boxed_m(before) + (seq![em] + rest) =~= boxed_m(args@) + rest);
                        },
                        Err(_) => {},
                    }
                }
                cur = j + 1;
            } else {
                let k = match self.consume_punct(j, Punct::RightParen, "Parsing call arguments") {
                    Ok(k) => k,
                    Err(x) => return Err(x),
                };
                assert(boxed_m(before) + seq![em] =~= boxed_m(args@));
                return Ok((args, k));
            }
        }
    }

    pub fn expression(&self, i: usize) -> (r: LoxResult<(Expr, usize)>)
        requires
            self.fits(),
            i <= self.ts().len(),
        ensures
            match r {
                Ok((e, j)) => expr(self.ts(), i as nat) == Ok::<(ExprM, nat), ErrM>(
                    (expr_m(&e), j as nat),
                ),
                Err(e) => err_is(expr(self.ts(), i as nat), e),
            },
        decreases self.ts().len() - i, 10int,
    {
        match self.equality(i) {
            Ok((q, j)) => Ok((Expr::Eqlty(q), j)),
            Err(e) => Err(e),
        }
    }

    fn equality(&self, i: usize) -> (r: LoxResult<(Eqlty, usize)>)
        requires
            self.fits(),
            i <= self.ts().len(),
        ensures
            match r {
                Ok((f, j)) => layer(self.ts(), i as nat, 0) == Ok::<(ExprM, nat), ErrM>(
                    (eqlty_m(&f), j as nat),
                ),
                Err(e) => err_is(layer(self.ts(), i as nat, 0), e),
            },
        decreases self.ts().len() - i, rank(0),
    {
        let ghost ts = self.ts();
        let (first, j0) = match self.comparison(i) {
            Ok(x) => x,
            Err(e) => return Err(e),
        };
        if j0 <= i || j0 > self.len() {
            return Err(self.stuck_err(i));
        }
        let mut rest: Vec<(Token, Comp)> = Vec::new();
        let mut j: usize = j0;
        loop
            invariant
                ts == self.ts(),
                self.fits(),
                i < j <= ts.len(),
                i < j0 <= ts.len(),
                layer(ts, i as nat, 1) == Ok::<(ExprM, nat), ErrM>((comp_m(&first), j0 as nat)),
                chain_rest(ts, j0 as nat, 0) == prepend(comp_rest_m(rest@), chain_rest(ts, j as nat, 0)),
            decreases ts.len() - j,
        {
            if j < self.len() && self.is_layer_op(j, 0) {
                let op = self.tok(j).clone();
                let (sub, k) = match self.comparison(j + 1) {
                    Ok(x) => x,
                    Err(e) => return Err(e),
                };
                if k <= j || k > self.len() {
                    return Err(self.stuck_err(j));
                }
                let ghost pair = (op@, comp_m(&sub));
                let ghost before = rest@;
                rest.push((op, sub));
                assert(rest@.drop_last() =~= before);
                proof {
                    match chain_rest(ts, k as nat, 0) {
                        Ok((r2, m)) => {
                            assert(comp_rest_m(before) + (seq![pair] + r2) =~= comp_rest_m(rest@) + r2);
                        },
                        Err(_) => {},
                    }
                }
                j = k;
            } else {
                assert(comp_rest_m(rest@) + Seq::<(TokM, ExprM)>::empty() =~= comp_rest_m(rest@));
                return Ok((Eqlty { first, rest }, j));
            }
        }
    }

    fn comparison(&self, i: usize) -> (r: LoxResult<(Comp, usize)>)
        requires
            self.fits(),
            i <= self.ts().len(),
        ensures
            match r {
                Ok((f, j)) => layer(self.ts(), i as nat, 1) == Ok::<(ExprM, nat), ErrM>(
                    (comp_m(&f), j as nat),
                ),
                Err(e) => err_is(layer(self.ts(), i as nat, 1), e),
            },
        decreases self.ts().len() - i, rank(1),
    {
        let ghost ts = self.ts();
        let (first, j0) = match self.term(i) {
            Ok(x) => x,
            Err(e) => return Err(e),
        };
        if j0 <= i || j0 > self.len() {
            return Err(self.stuck_err(i));
        }
        let mut rest: Vec<(Token, Term)> = Vec::new();
        let mut j: usize = j0;
        loop
            invariant
                ts == self.ts(),
                self.fits(),
                i < j <= ts.len(),
                i < j0 <= ts.len(),
                layer(ts, i as nat, 2) == Ok::<(ExprM, nat), ErrM>((term_m(&first), j0 as nat)),
                chain_rest(ts, j0 as nat, 1) == prepend(term_rest_m(rest@), chain_rest(ts, j as nat, 1)),
            decreases ts.len() - j,
        {
            if j < self.len() && self.is_layer_op(j, 1) {
                let op = self.tok(j).clone();
                let (sub, k) = match self.term(j + 1) {
                    Ok(x) => x,
                    Err(e) => return Err(e),
                };
                if k <= j || k > self.len() {
                    return Err(self.stuck_err(j));
                }
                let ghost pair = (op@, term_m(&sub));
                let ghost before = rest@;
                rest.push((op, sub));
                assert(rest@.drop_last() =~= before);
                proof {
                    match chain_rest(ts, k as nat, 1) {
                        Ok((r2, m)) => {
                            assert(term_rest_m(before) + (seq![pair] + r2) =~= term_rest_m(rest@) + r2);
                        },
                        Err(_) => {},
                    }
                }
                j = k;
            } else {
                assert(term_rest_m(rest@) + Seq::<(TokM, ExprM)>::empty() =~= term_rest_m(rest@));
                return Ok((Comp { first, rest }, j));
            }
        }
    }

    fn term(&self, i: usize) -> (r: LoxResult<(Term, usize)>)
        requires
            self.fits(),
            i <= self.ts().len(),
        ensures
            match r {
                Ok((f, j)) => layer(self.ts(), i as nat, 2) == Ok::<(ExprM, nat), ErrM>(
                    (term_m(&f), j as nat),
                ),
                Err(e) => err_is(layer(self.ts(), i as nat, 2), e),
            },
        decreases self.ts().len() - i, rank(2),
    {
        let ghost ts = self.ts();
        let (first, j0) = match self.factor(i) {
            Ok(x) => x,
            Err(e) => return Err(e),
        };
        if j0 <= i || j0 > self.len() {
            return Err(self.stuck_err(i));
        }
        let mut rest: Vec<(Token, Factor)> = Vec::new();
        let mut j: usize = j0;
        loop
            invariant
                ts == self.ts(),
                self.fits(),
                i < j <= ts.len(),
                i < j0 <= ts.len(),
                layer(ts, i as nat, 3) == Ok::<(ExprM, nat), ErrM>((factor_m(&first), j0 as nat)),
                chain_rest(ts, j0 as nat, 2) == prepend(factor_rest_m(rest@), chain_rest(ts, j as nat, 2)),
            decreases ts.len() - j,
        {
            if j < self.len() && self.is_layer_op(j, 2) {
                let op = self.tok(j).clone();
                let (sub, k) = match self.factor(j + 1) {
                    Ok(x) => x,
                    Err(e) => return Err(e),
                };
                if k <= j || k > self.len() {
                    return Err(self.stuck_err(j));
                }
                let ghost pair = (op@, factor_m(&sub));
                let ghost before = rest@;
                rest.push((op, sub));
                assert(rest@.drop_last() =~= before);
                proof {
                    match chain_rest(ts, k as nat, 2) {
                        Ok((r2, m)) => {
                            assert(factor_rest_m(before) + (seq![pair] + r2) =~= factor_rest_m(rest@) + r2);
                        },
                        Err(_) => {},
                    }
                }
                j = k;
            } else {
                assert(factor_rest_m(rest@) + Seq::<(TokM, ExprM)>::empty() =~= factor_rest_m(rest@));
                return Ok((Term { first, rest }, j));
            }
        }
    }

    fn factor(&self, i: usize) -> (r: LoxResult<(Factor, usize)>)
        requires
            self.fits(),
            i <= self.ts().len(),
        ensures
            match r {
                Ok((f, j)) => layer(self.ts(), i as nat, 3) == Ok::<(ExprM, nat), ErrM>(
                    (factor_m(&f), j as nat),
                ),
                Err(e) => err_is(layer(self.ts(), i as nat, 3), e),
            },
        decreases self.ts().len() - i, rank(3),
    {
        let ghost ts = self.ts();
        let (first, j0) = match self.unary(i) {
            Ok(x) => x,
            Err(e) => return Err(e),
        };
        if j0 <= i || j0 > self.len() {
            return Err(self.stuck_err(i));
        }
        let mut rest: Vec<(Token, Unary)> = Vec::new();
        let mut j: usize = j0;
        loop
            invariant
                ts == self.ts(),
                self.fits(),
                i < j <= ts.len(),
                i < j0 <= ts.len(),
                unary(ts, i as nat) == Ok::<(ExprM, nat), ErrM>((unary_m(&first), j0 as nat)),
                chain_rest(ts, j0 as nat, 3) == prepend(unary_rest_m(rest@), chain_rest(ts, j as nat, 3)),
            decreases ts.len() - j,
        {
            if j < self.len() && self.is_layer_op(j, 3) {
                let op = self.tok(j).clone();
                let (sub, k) = match self.unary(j + 1) {
                    Ok(x) => x,
                    Err(e) => return Err(e),
                };
                if k <= j || k > self.len() {
                    return Err(self.stuck_err(j));
                }
                let ghost pair = (op@, unary_m(&sub));
                let ghost before = rest@;
                rest.push((op, sub));
                assert(rest@.drop_last() =~= before);
                proof {
                    match chain_rest(ts, k as nat, 3) {
                        Ok((r2, m)) => {
                            assert(unary_rest_m(before) + (seq![pair] + r2) =~= unary_rest_m(rest@) + r2);
                        },
                        Err(_) => {},
                    }
                }
                j = k;
            } else {
                assert(unary_rest_m(rest@) + Seq::<(TokM, ExprM)>::empty() =~= unary_rest_m(rest@));
                return Ok((Factor { first, rest }, j));
            }
        }
    }

    fn is_layer_op(&self, j: usize, lvl: u8) -> (r: bool)
        requires
            j < self.ts().len(),
        ensures
            r == is_layer_op(self.ts()[j as int], lvl as nat),
    {
        let t = self.tok(j);
        if lvl == 0 {
            t.equals_punct(Punct::EqualEqual) || t.equals_punct(Punct::BangEqual)
        } else if lvl == 1 {
            t.equals_punct(Punct::LessEqual) || t.equals_punct(Punct::GreaterEqual)
                || t.equals_punct(Punct::Less) || t.equals_punct(Punct::Greater)
        } else if lvl == 2 {
            t.equals_punct(Punct::Plus) || t.equals_punct(Punct::Minus)
        } else {
            t.equals_punct(Punct::Star) || t.equals_punct(Punct::Slash)
        }
    }

}

} // verus!
