//! Class definitions: a name and a body of `var` fields and `fun` methods.

use vstd::prelude::*;
use vstd::string::*;
use std::rc::Rc;
use crate::errors::LoxResult;
use crate::grammar::{class_def, expect_punct, members_from};
use crate::parser::{err_is, Parser};
use crate::scanner::ErrM;
use crate::structure::{
    expr_m, fields_m, fun_m, funs_m, stmt_m, ClassDefinition, ExprM, FunM, FunctionDefinition,
    LVal, RVal, Statement, StmtM,
};
use crate::tokens::{is_id, Punct};

verus! {

impl Parser {
    pub(crate) fn class_def_stmt(&self, i: usize) -> (r: LoxResult<(Statement, usize)>)
        requires
            self.fits(),
            i < self.ts().len(),
        ensures
            match r {
                Ok((s, j)) => class_def(self.ts(), i as nat) == Ok::<(StmtM, nat), ErrM>(
                    (stmt_m(&s), j as nat),
                ),
                Err(e) => err_is(class_def(self.ts(), i as nat), e),
            },
        decreases self.ts().len() - i, 19int,
    {
        let ghost ts = self.ts();
        let info = "parsing class def";
        if i + 1 >= self.len() {
            return Err(self.expected_next_token_err(i + 1, info));
        }
        let class_name = self.tok(i + 1);
        if !class_name.is_identifier() {
            let found = class_name.describe();
            return Err(
                self.parsing_err(i + 2).expected_but_found("identifier", found.as_str()).build(),
            );
        }
        let start = match self.consume_punct(i + 2, Punct::LeftBrace, info) {
            Ok(j) => j,
            Err(e) => return Err(e),
        };
        let mut fields: Vec<(LVal, RVal)> = Vec::new();
        let mut methods: Vec<Rc<FunctionDefinition>> = Vec::new();
        let mut cur: usize = start;
        loop
            invariant
                ts == self.ts(),
                self.fits(),
                i + 1 < ts.len(),
                is_id(ts[i + 1]),
                i < start <= cur,
                cur <= ts.len(),
                expect_punct(ts, (i + 2) as nat, Punct::LeftBrace) == Ok::<nat, ErrM>(start as nat),
                members_from(ts, start as nat) == (match members_from(ts, cur as nat) {
                    Ok(((fs, ms), m)) => Ok::<_, ErrM>(
                        ((fields_m(fields@) + fs, funs_m(methods@) + ms), m),
                    ),
                    Err(e) => Err(e),
                }),
            decreases ts.len() - cur,
        {
            if cur >= self.len() || self.punct_at(cur, Punct::RightBrace) {
                assert(fields_m(fields@) + Seq::<(Seq<char>, ExprM)>::empty() =~= fields_m(fields@));
                assert(funs_m(methods@) + Seq::<FunM>::empty() =~= funs_m(methods@));
                let m = match self.consume_punct(cur, Punct::RightBrace, info) {
                    Ok(m) => m,
                    Err(x) => return Err(x),
                };
                let name = self.tok(i + 1).clone();
                return Ok((Statement::Class(Rc::new(ClassDefinition { name, fields, methods })), m));
            }
            let (st, j) = match self.statement(cur) {
                Ok(x) => x,
                Err(e) => return Err(e),
            };
            let k = match self.end_statement(j, &st, Punct::RightBrace) {
                Ok(k) => k,
                Err(e) => return Err(e),
            };
            let ghost sm = stmt_m(&st);
            match st {
                Statement::Let(l, rv) => {
                    if k <= cur || k > self.len() {
                        return Err(self.stuck_err(cur));
                    }
                    let ghost before = fields@;
                    let ghost f = (l.identifier@, expr_m(&rv.expr));
                    fields.push((l, rv));
                    assert(fields@.drop_last() =~= before);
                    proof {
                        match members_from(ts, k as nat) {
                            Ok(((fs, ms), m)) => {
                                assert(fields_m(before) + (seq![f] + fs) =~= fields_m(fields@) + fs);
                            },
                            Err(_) => {},
                        }
                    }
                },
                Statement::Fun(_, f) => {
                    if k <= cur || k > self.len() {
                        return Err(self.stuck_err(cur));
                    }
                    let ghost before = methods@;
                    let ghost fm = fun_m(&*f);
                    methods.push(f);
                    assert(methods@.drop_last() =~= before);
                    proof {
                        match members_from(ts, k as nat) {
                            Ok(((fs, ms), m)) => {
                                assert(funs_m(before) + (seq![fm] + ms) =~= funs_m(methods@) + ms);
                            },
                            Err(_) => {},
                        }
                    }
                },
                _ => {
                    return Err(
                        self.parsing_err(k).expected_but_found(
                            "function or let statement",
                            "another statement",
                        ).build(),
                    );
                },
            }
            cur = k;
        }
    }
}

} // verus!
