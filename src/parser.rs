//! The parser: recursive descent from a token sequence to a program.

use vstd::prelude::*;
use vstd::string::*;
use std::rc::Rc;
use crate::errors::{ErrBuilder, ErrType, LoxError, LoxResult};
use crate::grammar::{
    nothing, stmt_end,
    args_from, block, call_args, chain_rest, class_def, err_pos, expect_ident, expect_punct, expr,
    is_layer_op, layer, lead, members_from, moved, paren_expr, params, params_from, parse_tokens,
    perr, program_from, punct_at, rank, statement, statement_kind, stmts_until, stuck, unary,
    unary_kind, PR,
};
use crate::readers::TokenReader;
use crate::scanner::{tokens_view, ErrM, ScannerOutput};
use crate::structure::{
    boxed_m, comp_m, comp_rest_m, eqlty_m, expr_m, factor_m, factor_rest_m, fields_m, fun_m,
    funs_m, names_m, opt_tok, stmt_m, stmts_m, term_m, term_rest_m, unary_m, unary_rest_m,
    ClassDefinition, Comp, Eqlty, Expr, ExprM, Factor, FunctionDefinition, LVal, Program, RVal,
    Statement, StatementKind, StmtM, Term, Unary, UnaryKind,
};
use crate::tokens::{is_id, Kwd, Punct, TokM, TokV, Token, TokenValue};

verus! {

/// `e` is the error that the spec outcome `m` describes.
pub open spec fn err_is<A>(m: Result<A, ErrM>, e: LoxError) -> bool {
    m is Err && (e.err_type, e.pos) == m->Err_0
}

/// `a` before the sequence that `r` read, where `r` read one.
pub open spec fn prepend<A>(a: Seq<A>, r: PR<Seq<A>>) -> PR<Seq<A>> {
    match r {
        Ok((rest, k)) => Ok((a + rest, k)),
        Err(e) => Err(e),
    }
}

pub struct Parser {
    pub token_reader: TokenReader,
}

impl Parser {
    pub open spec fn ts(&self) -> Seq<TokM> {
        tokens_view(self.token_reader.tokens@)
    }

    /// Indices a few places past the end still fit in `usize`.
    pub open spec fn fits(&self) -> bool {
        self.ts().len() + 4 <= usize::MAX
    }

    pub fn new(scanner_output: ScannerOutput) -> (r: Self)
        ensures
            r.ts() == tokens_view(scanner_output.tokens@),
    {
        Parser { token_reader: TokenReader::new(scanner_output.tokens) }
    }

    /// Parses the whole token sequence into a program.
    pub fn parse(&self) -> (r: LoxResult<Program>)
        requires
            self.fits(),
        ensures
            match r {
                Ok(p) => parse_tokens(self.ts()) == Ok::<Seq<StmtM>, ErrM>(stmts_m(p@)),
                Err(e) => err_is(parse_tokens(self.ts()), e),
            },
    {
        match self.program(0) {
            Ok((p, _)) => Ok(p),
            Err(e) => Err(e),
        }
    }

    pub(crate) fn len(&self) -> (r: usize)
        ensures
            r == self.ts().len(),
    {
        self.token_reader.tokens.len()
    }

    pub(crate) fn tok(&self, i: usize) -> (r: &Token)
        requires
            i < self.ts().len(),
        ensures
            r@ == self.ts()[i as int],
    {
        &self.token_reader.tokens[i]
    }

    pub(crate) fn punct_at(&self, i: usize, p: Punct) -> (r: bool)
        ensures
            r == punct_at(self.ts(), i as nat, p),
    {
        match self.token_reader.peek(i) {
            Some(t) => t.equals_punct(p),
            None => false,
        }
    }

    /// A parsing error placed at the last token read before index `i`, or at the token
    /// at `i` where there is none.
    pub(crate) fn parsing_err(&self, i: usize) -> (r: ErrBuilder)
        ensures
            r.err_type == Some(ErrType::ParsingErr),
            r.pos == Some(err_pos(self.ts(), i as nat)),
            r.message is None,
            r.while_info is None,
    {
        let b = ErrBuilder::new().of_type(ErrType::ParsingErr);
        match self.token_reader.previous(i) {
            Some(t) => b.at(t.pos),
            None => match self.token_reader.peek(i) {
                Some(t) => b.at(t.pos),
                None => b.without_pos(),
            },
        }
    }

    pub(crate) fn stuck_err(&self, i: usize) -> (r: LoxError)
        ensures
            (r.err_type, r.pos) == stuck(self.ts(), i as nat),
    {
        let b = self.parsing_err(i);
        b.of_type(ErrType::InterpreterError).with_message(
            String::from_str("The parser made no progress."),
        ).build()
    }

    pub(crate) fn expected_next_token_err(&self, i: usize, info: &str) -> (r: LoxError)
        ensures
            (r.err_type, r.pos) == perr(self.ts(), i as nat),
    {
        self.parsing_err(i).expected_found_nothing("token").while_(info).build()
    }

    pub(crate) fn consume_punct(&self, i: usize, expected: Punct, info: &str) -> (r: LoxResult<usize>)
        ensures
            match r {
                Ok(j) => expect_punct(self.ts(), i as nat, expected) == Ok::<nat, ErrM>(j as nat),
                Err(e) => err_is(expect_punct(self.ts(), i as nat, expected), e),
            },
    {
        if i >= self.len() {
            return Err(
                self.parsing_err(i).expected_found_nothing(expected.name()).while_(info).build(),
            );
        }
        let next = self.tok(i);
        if next.equals_punct(expected) {
            Ok(i + 1)
        } else {
            let found = next.describe();
            Err(
                self.parsing_err(i + 1).expected_but_found(
                    expected.name(),
                    found.as_str(),
                ).while_(info).build(),
            )
        }
    }

    pub(crate) fn consume_identifier(&self, i: usize, info: &str) -> (r: LoxResult<(String, usize)>)
        ensures
            match r {
                Ok((n, j)) => expect_ident(self.ts(), i as nat) == Ok::<(Seq<char>, nat), ErrM>(
                    (n@, j as nat),
                ),
                Err(e) => err_is(expect_ident(self.ts(), i as nat), e),
            },
    {
        if i >= self.len() {
            return Err(
                self.parsing_err(i).expected_found_nothing("identifier").while_(info).build(),
            );
        }
        let token = self.tok(i);
        match &token.val {
            TokenValue::Id(id) => Ok((id.clone(), i + 1)),
            _ => {
                let found = token.describe();
                Err(
                    self.parsing_err(i + 1).expected_but_found(
                        "identifier",
                        found.as_str(),
                    ).while_(info).build(),
                )
            },
        }
    }

    pub fn statement_decider(&self, i: usize) -> (r: LoxResult<StatementKind>)
        ensures
            i < self.ts().len() ==> r == Ok::<StatementKind, LoxError>(
                statement_kind(self.ts()[i as int]),
            ),
            i >= self.ts().len() ==> r is Err && err_is(
                Err::<StatementKind, ErrM>(perr(self.ts(), i as nat)),
                r->Err_0,
            ),
    {
        if i >= self.len() {
            return Err(
                self.parsing_err(i).expected_found_nothing("first token of a statement").while_(
                    "Parsing statement",
                ).build(),
            );
        }
        match &self.tok(i).val {
            TokenValue::Kwd(Kwd::Print) => Ok(StatementKind::Print),
            TokenValue::Kwd(Kwd::If) => Ok(StatementKind::If),
            TokenValue::Kwd(Kwd::Var) => Ok(StatementKind::Let),
            TokenValue::Kwd(Kwd::While) => Ok(StatementKind::WhileLoop),
            TokenValue::Kwd(Kwd::Fun) => Ok(StatementKind::Fun),
            TokenValue::Kwd(Kwd::Return) => Ok(StatementKind::Return),
            TokenValue::Kwd(Kwd::Class) => Ok(StatementKind::Class),
            _ => Ok(StatementKind::Expr),
        }
    }

    pub fn unary_decider(&self, i: usize) -> (r: LoxResult<UnaryKind>)
        ensures
            match r {
                Ok(k) => unary_kind(self.ts(), i as nat) == Ok::<UnaryKind, ErrM>(k),
                Err(e) => err_is(unary_kind(self.ts(), i as nat), e),
            },
    {
        let len = self.len();
        if i >= len || len - i < 2 {
            return Err(self.nothing_err(i, "Parsing the first tokens of an operand"));
        }
        let token_1 = self.tok(i);
        let token_2 = self.tok(i + 1);
        if token_1.can_be_unary_op() {
            if token_2.equals_punct(Punct::LeftParen) {
                return Ok(UnaryKind::Recursive(true));
            }
            if len - i < 3 {
                return Err(self.nothing_err(i + 1, "Parsing the third token of an operand"));
            }
            let token_3 = self.tok(i + 2);
            if token_2.is_identifier() && token_3.equals_punct(Punct::LeftParen) {
                return Ok(UnaryKind::Call(true));
            }
            if token_2.is_identifier() || token_2.is_value() {
                return Ok(UnaryKind::Final(true));
            }
            let found = token_2.describe();
            return Err(
                self.parsing_err(i).expected_but_found("a value or an identifier", found.as_str()).while_(
                    "Parsing an operand",
                ).build(),
            );
        }
        if token_1.equals_punct(Punct::LeftParen) {
            return Ok(UnaryKind::Recursive(false));
        }
        if token_1.is_identifier() && token_2.equals_punct(Punct::LeftParen) {
            return Ok(UnaryKind::Call(false));
        }
        if token_1.is_identifier() || token_1.is_value() {
            return Ok(UnaryKind::Final(false));
        }
        let found = token_1.describe();
        Err(
            self.parsing_err(i).expected_but_found("a value or an identifier", found.as_str()).while_(
                "Parsing an operand",
            ).build(),
        )
    }

    /// A missing token: placed at the token at `j` where there is one.
    fn nothing_err(&self, j: usize, info: &str) -> (r: LoxError)
        ensures
            (r.err_type, r.pos) == nothing(self.ts(), j as nat),
    {
        if j < self.len() {
            let pos = self.tok(j).pos;
            ErrBuilder::new().of_type(ErrType::ParsingErr).at(pos).expected_found_nothing(
                "token",
            ).while_(info).build()
        } else {
            self.expected_next_token_err(j, info)
        }
    }

    /// Reads past the `;` after a statement that ends at `j`, where one is needed or given.
    pub(crate) fn end_statement(&self, j: usize, st: &Statement, closer: Punct) -> (r: LoxResult<
        usize,
    >)
        ensures
            match r {
                Ok(k) => stmt_end(self.ts(), j as nat, stmt_m(st), closer) == Ok::<nat, ErrM>(
                    k as nat,
                ),
                Err(e) => err_is(stmt_end(self.ts(), j as nat, stmt_m(st), closer), e),
            },
    {
        if j < self.len() && self.punct_at(j, Punct::Semicolon) {
            return Ok(j + 1);
        }
        let ends_in_block = match st {
            Statement::If(_, _) | Statement::WhileLoop(_, _) | Statement::Fun(_, _)
            | Statement::Class(_) => true,
            _ => false,
        };
        if ends_in_block || self.punct_at(j, closer) {
            return Ok(j);
        }
        self.consume_punct(j, Punct::Semicolon, "Reading statements")
    }

    /// `(` expr `)`, as after `if` and `while`.
    fn parenthesized_expr(&self, i: usize) -> (r: LoxResult<(Expr, usize)>)
        requires
            self.fits(),
            i <= self.ts().len(),
        ensures
            match r {
                Ok((e, j)) => paren_expr(self.ts(), i as nat) == Ok::<(ExprM, nat), ErrM>(
                    (expr_m(&e), j as nat),
                ),
                Err(e) => err_is(paren_expr(self.ts(), i as nat), e),
            },
        decreases self.ts().len() - i, 12int,
    {
        let info = "Processing parenthesized expression";
        let j = match self.consume_punct(i, Punct::LeftParen, info) {
            Ok(j) => j,
            Err(e) => return Err(e),
        };
        let (e, k) = match self.expression(j) {
            Ok(x) => x,
            Err(e) => return Err(e),
        };
        match self.consume_punct(k, Punct::RightParen, info) {
            Ok(m) => Ok((e, m)),
            Err(x) => Err(x),
        }
    }

    /// The program up to the `Eof` token.
    fn program(&self, i: usize) -> (r: LoxResult<(Program, usize)>)
        requires
            self.fits(),
            i <= self.ts().len(),
        ensures
            match r {
                Ok((p, j)) => program_from(self.ts(), i as nat) == Ok::<(Seq<StmtM>, nat), ErrM>(
                    (stmts_m(p@), j as nat),
                ),
                Err(e) => err_is(program_from(self.ts(), i as nat), e),
            },
        decreases self.ts().len() - i, 25int,
    {
        let ghost ts = self.ts();
        let mut stmts: Vec<Statement> = Vec::new();
        let mut cur: usize = i;
        loop
            invariant
                ts == self.ts(),
                self.fits(),
                i <= cur,
                cur <= ts.len(),
                program_from(ts, i as nat) == prepend(stmts_m(stmts@), program_from(ts, cur as nat)),
            decreases ts.len() - cur,
        {
            if self.punct_at(cur, Punct::Eof) {
                assert(stmts_m(stmts@) + Seq::<StmtM>::empty() =~= stmts_m(stmts@));
                return Ok((stmts, cur));
            }
            let (st, j) = match self.statement(cur) {
                Ok(x) => x,
                Err(e) => return Err(e),
            };
            let k = match self.end_statement(j, &st, Punct::Eof) {
                Ok(k) => k,
                Err(e) => return Err(e),
            };
            if k <= cur || k > self.len() {
                return Err(self.stuck_err(cur));
            }
            let ghost sm = stmt_m(&st);
            let ghost before = stmts@;
            stmts.push(st);
            assert(stmts@.drop_last() =~= before);
            proof {
                match program_from(ts, k as nat) {
                    Ok((r2, m)) => {
                        assert(stmts_m(before) + (seq![sm] + r2) =~= stmts_m(stmts@) + r2);
                    },
                    Err(_) => {},
                }
            }
            cur = k;
        }
    }

    /// `{` (statement `;`)* `}`.
    fn scoped_program(&self, i: usize) -> (r: LoxResult<(Program, usize)>)
        requires
            self.fits(),
            i <= self.ts().len(),
        ensures
            match r {
                Ok((p, j)) => block(self.ts(), i as nat) == Ok::<(Seq<StmtM>, nat), ErrM>(
                    (stmts_m(p@), j as nat),
                ),
                Err(e) => err_is(block(self.ts(), i as nat), e),
            },
        decreases self.ts().len() - i, 21int,
    {
        let ghost ts = self.ts();
        let info = "Parsing scoped statements";
        let start = match self.consume_punct(i, Punct::LeftBrace, info) {
            Ok(j) => j,
            Err(e) => return Err(e),
        };
        let mut stmts: Vec<Statement> = Vec::new();
        let mut cur: usize = start;
        loop
            invariant
                ts == self.ts(),
                self.fits(),
                i < start <= cur,
                cur <= ts.len(),
                block(ts, i as nat) == (match prepend(stmts_m(stmts@), stmts_until(ts, cur as nat)) {
                    Err(x) => Err(x),
                    Ok((b, k)) => match expect_punct(ts, k, Punct::RightBrace) {
                        Err(x) => Err(x),
                        Ok(m) => Ok((b, m)),
                    },
                }),
            decreases ts.len() - cur,
        {
            if self.punct_at(cur, Punct::RightBrace) {
                assert(stmts_m(stmts@) + Seq::<StmtM>::empty() =~= stmts_m(stmts@));
                return match self.consume_punct(cur, Punct::RightBrace, info) {
                    Ok(m) => Ok((stmts, m)),
                    Err(x) => Err(x),
                };
            }
            let (st, j) = match self.statement(cur) {
                Ok(x) => x,
                Err(e) => return Err(e),
            };
            let k = match self.end_statement(j, &st, Punct::RightBrace) {
                Ok(k) => k,
                Err(e) => return Err(e),
            };
            if k <= cur || k > self.len() {
                return Err(self.stuck_err(cur));
            }
            let ghost sm = stmt_m(&st);
            let ghost before = stmts@;
            stmts.push(st);
            assert(stmts@.drop_last() =~= before);
            proof {
                match stmts_until(ts, k as nat) {
                    Ok((r2, m)) => {
                        assert(stmts_m(before) + (seq![sm] + r2) =~= stmts_m(stmts@) + r2);
                    },
                    Err(_) => {},
                }
            }
            cur = k;
        }
    }

    pub(crate) fn statement(&self, i: usize) -> (r: LoxResult<(Statement, usize)>)
        requires
            self.fits(),
            i <= self.ts().len(),
        ensures
            match r {
                Ok((s, j)) => statement(self.ts(), i as nat) == Ok::<(StmtM, nat), ErrM>(
                    (stmt_m(&s), j as nat),
                ),
                Err(e) => err_is(statement(self.ts(), i as nat), e),
            },
        decreases self.ts().len() - i, 20int,
    {
        let kind = match self.statement_decider(i) {
            Ok(k) => k,
            Err(e) => return Err(e),
        };
        match kind {
            StatementKind::Expr => self.expr_stmt(i),
            StatementKind::Print => self.print_stmt(i),
            StatementKind::Return => self.return_(i),
            StatementKind::If => self.if_stmt(i),
            StatementKind::WhileLoop => self.while_stmt(i),
            StatementKind::Let => self.var_stmt(i),
            StatementKind::Fun => self.function_definition(i),
            StatementKind::Class => self.class_def_stmt(i),
        }
    }

    fn expr_stmt(&self, i: usize) -> (r: LoxResult<(Statement, usize)>)
        requires
            self.fits(),
            i <= self.ts().len(),
            i < self.ts().len(),
            statement_kind(self.ts()[i as int]) == StatementKind::Expr,
        ensures
            match r {
                Ok((s, j)) => statement(self.ts(), i as nat) == Ok::<(StmtM, nat), ErrM>(
                    (stmt_m(&s), j as nat),
                ),
                Err(e) => err_is(statement(self.ts(), i as nat), e),
            },
        decreases self.ts().len() - i, 15int,
    {
        match self.expression(i) {
            Ok((e, j)) => Ok((Statement::Expr(e), j)),
            Err(x) => Err(x),
        }
    }

    fn print_stmt(&self, i: usize) -> (r: LoxResult<(Statement, usize)>)
        requires
            self.fits(),
            i <= self.ts().len(),
            i < self.ts().len(),
            statement_kind(self.ts()[i as int]) == StatementKind::Print,
        ensures
            match r {
                Ok((s, j)) => statement(self.ts(), i as nat) == Ok::<(StmtM, nat), ErrM>(
                    (stmt_m(&s), j as nat),
                ),
                Err(e) => err_is(statement(self.ts(), i as nat), e),
            },
        decreases self.ts().len() - i, 15int,
    {
        match self.expression(i + 1) {
            Ok((e, j)) => Ok((Statement::Print(e), j)),
            Err(x) => Err(x),
        }
    }

    fn return_(&self, i: usize) -> (r: LoxResult<(Statement, usize)>)
        requires
            self.fits(),
            i <= self.ts().len(),
            i < self.ts().len(),
            statement_kind(self.ts()[i as int]) == StatementKind::Return,
        ensures
            match r {
                Ok((s, j)) => statement(self.ts(), i as nat) == Ok::<(StmtM, nat), ErrM>(
                    (stmt_m(&s), j as nat),
                ),
                Err(e) => err_is(statement(self.ts(), i as nat), e),
            },
        decreases self.ts().len() - i, 15int,
    {
        match self.expression(i + 1) {
            Ok((e, j)) => Ok((Statement::Return(e), j)),
            Err(x) => Err(x),
        }
    }

    fn if_stmt(&self, i: usize) -> (r: LoxResult<(Statement, usize)>)
        requires
            self.fits(),
            i <= self.ts().len(),
            i < self.ts().len(),
            statement_kind(self.ts()[i as int]) == StatementKind::If,
        ensures
            match r {
                Ok((s, j)) => statement(self.ts(), i as nat) == Ok::<(StmtM, nat), ErrM>(
                    (stmt_m(&s), j as nat),
                ),
                Err(e) => err_is(statement(self.ts(), i as nat), e),
            },
        decreases self.ts().len() - i, 15int,
    {
        let (cond, j) = match self.parenthesized_expr(i + 1) {
            Ok(x) => x,
            Err(e) => return Err(e),
        };
        if j <= i || j > self.len() {
            return Err(self.stuck_err(i));
        }
        match self.scoped_program(j) {
            Ok((body, k)) => Ok((Statement::If(cond, body), k)),
            Err(e) => Err(e),
        }
    }

    fn while_stmt(&self, i: usize) -> (r: LoxResult<(Statement, usize)>)
        requires
            self.fits(),
            i <= self.ts().len(),
            i < self.ts().len(),
            statement_kind(self.ts()[i as int]) == StatementKind::WhileLoop,
        ensures
            match r {
                Ok((s, j)) => statement(self.ts(), i as nat) == Ok::<(StmtM, nat), ErrM>(
                    (stmt_m(&s), j as nat),
                ),
                Err(e) => err_is(statement(self.ts(), i as nat), e),
            },
        decreases self.ts().len() - i, 15int,
    {
        let (cond, j) = match self.parenthesized_expr(i + 1) {
            Ok(x) => x,
            Err(e) => return Err(e),
        };
        if j <= i || j > self.len() {
            return Err(self.stuck_err(i));
        }
        match self.scoped_program(j) {
            Ok((body, k)) => Ok((Statement::WhileLoop(cond, body), k)),
            Err(e) => Err(e),
        }
    }

    fn var_stmt(&self, i: usize) -> (r: LoxResult<(Statement, usize)>)
        requires
            self.fits(),
            i <= self.ts().len(),
            i < self.ts().len(),
            statement_kind(self.ts()[i as int]) == StatementKind::Let,
        ensures
            match r {
                Ok((s, j)) => statement(self.ts(), i as nat) == Ok::<(StmtM, nat), ErrM>(
                    (stmt_m(&s), j as nat),
                ),
                Err(e) => err_is(statement(self.ts(), i as nat), e),
            },
        decreases self.ts().len() - i, 15int,
    {
        let info = "parsing assignment statement";
        let (identifier, j) = match self.consume_identifier(i + 1, info) {
            Ok(x) => x,
            Err(e) => return Err(e),
        };
        let k = match self.consume_punct(j, Punct::Equal, info) {
            Ok(k) => k,
            Err(e) => return Err(e),
        };
        match self.expression(k) {
            Ok((e, m)) => Ok((Statement::Let(LVal { identifier }, RVal { expr: e }), m)),
            Err(x) => Err(x),
        }
    }

    fn function_definition(&self, i: usize) -> (r: LoxResult<(Statement, usize)>)
        requires
            self.fits(),
            i <= self.ts().len(),
            i < self.ts().len(),
            statement_kind(self.ts()[i as int]) == StatementKind::Fun,
        ensures
            match r {
                Ok((s, j)) => statement(self.ts(), i as nat) == Ok::<(StmtM, nat), ErrM>(
                    (stmt_m(&s), j as nat),
                ),
                Err(e) => err_is(statement(self.ts(), i as nat), e),
            },
        decreases self.ts().len() - i, 15int,
    {
        let pos = self.tok(i).pos;
        let (name, j) = match self.consume_identifier(i + 1, "Expected function name") {
            Ok(x) => x,
            Err(e) => return Err(e),
        };
        let (args, k) = match self.fn_def_args(j) {
            Ok(x) => x,
            Err(e) => return Err(e),
        };
        if k <= i || k > self.len() {
            return Err(self.stuck_err(i));
        }
        match self.scoped_program(k) {
            Ok((body, m)) => {
                let def = FunctionDefinition { name, args, body };
                Ok((Statement::Fun(pos, Rc::new(def)), m))
            },
            Err(e) => Err(e),
        }
    }

    /// The parameter list of a function definition; the token at `i` should be its `(`.
    fn fn_def_args(&self, i: usize) -> (r: LoxResult<(Vec<String>, usize)>)
        requires
            self.fits(),
            i <= self.ts().len(),
        ensures
            match r {
                Ok((a, j)) => params(self.ts(), i as nat) == Ok::<(Seq<Seq<char>>, nat), ErrM>(
                    (names_m(a@), j as nat),
                ),
                Err(e) => err_is(params(self.ts(), i as nat), e),
            },
    {
        let ghost ts = self.ts();
        let info = "parsing function definition arguments";
        let start = match self.consume_punct(i, Punct::LeftParen, info) {
            Ok(j) => j,
            Err(e) => return Err(e),
        };
        if self.punct_at(start, Punct::RightParen) {
            assert(names_m(Seq::<String>::empty()) =~= Seq::<Seq<char>>::empty());
            return Ok((Vec::new(), start + 1));
        }
        let mut args: Vec<String> = Vec::new();
        let mut cur: usize = start;
        loop
            invariant
                ts == self.ts(),
                self.fits(),
                start <= cur,
                cur <= ts.len(),
                params(ts, i as nat) == prepend(names_m(args@), params_from(ts, cur as nat)),
            decreases ts.len() - cur,
        {
            let (id, j) = match self.consume_identifier(cur, info) {
                Ok(x) => x,
                Err(e) => return Err(e),
            };
            let ghost n = id@;
            let ghost before = args@;
            args.push(id);
            assert(names_m(args@) =~= names_m(before) + seq![n]);
            if self.punct_at(j, Punct::Comme) {
                proof {
                    match params_from(ts, (j + 1) as nat) {
                        Ok((r2, m)) => {
                            assert(names_m(before) + (seq![n] + r2) =~= names_m(args@) + r2);
                        },
                        Err(_) => {},
                    }
                }
                cur = j + 1;
            } else {
                return match self.consume_punct(j, Punct::RightParen, info) {
                    Ok(k) => Ok((args, k)),
                    Err(x) => Err(x),
                };
            }
        }
    }

}

} // verus!
