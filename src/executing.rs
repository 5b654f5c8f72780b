//! The evaluator: runs a program over a stack of scopes and collects what it prints.

use vstd::prelude::*;
use vstd::string::*;
use std::rc::Rc;
use crate::definitions::{obj_m, LoxObj, ObjM};
use crate::errors::{ErrBuilder, ErrType, LoxError, LoxResult, Position};
use crate::locate::{locate_comp, locate_eqlty, locate_expr, locate_factor, locate_term, locate_unary};
use crate::operations::{call_inbuilt, eval_err, handle, obj_agrees, unary_op};
use crate::scanner::ErrM;
use crate::semantics::{
    atom, bind_params, call, eval, eval_args, exec_stmt, fold, locate, run_block, scoped,
    while_loop, with_scopes, EnvM, Ev,
};
use crate::state::{global_scope, not_in_scope, state_get, State};
use crate::structure::{
    boxed_m, comp_m, comp_rest_m, eqlty_m, expr_m, factor_m, factor_rest_m, lemma_boxed,
    lemma_comp_rest, lemma_factor_rest, lemma_stmts, lemma_term_rest, lemma_unary_rest, names_m,
    stmt_m, stmts_m, term_m, term_rest_m, unary_m, unary_rest_m, Comp, Eqlty, Expr, Factor,
    FunctionDefinition, Program, Statement, Term, Unary,
};
use crate::tokens::{Token, TokenValue, ValM};

verus! {

/// The fuel that a program gets: evaluation nests at most this deep.
pub const MAX_FUEL: u64 = 0xffff_ffff_ffff_ffff;

pub open spec fn out_m(v: Seq<String>) -> Seq<Seq<char>> {
    v.map_values(|s: String| s@)
}

pub open spec fn opt_obj(o: Option<LoxObj>) -> Option<ObjM> {
    match o {
        Some(o) => Some(obj_m(&o)),
        None => None,
    }
}

/// The executed outcome `r`, in environment `env`, is what the spec outcome `m` describes.
pub open spec fn ev_obj(m: Ev<ObjM>, env: EnvM, r: LoxResult<LoxObj>) -> bool {
    m.0 == env && obj_agrees(m.1, r)
}

pub open spec fn ev_stmt(m: Ev<Option<ObjM>>, env: EnvM, r: LoxResult<Option<LoxObj>>) -> bool {
    &&& m.0 == env
    &&& match r {
        Ok(o) => m.1 == Ok::<Option<ObjM>, ErrM>(opt_obj(o)),
        Err(e) => m.1 is Err && (e.err_type, e.pos) == m.1->Err_0,
    }
}

pub open spec fn ev_vals(m: Ev<Seq<ObjM>>, env: EnvM, r: LoxResult<Vec<LoxObj>>) -> bool {
    &&& m.0 == env
    &&& match r {
        Ok(v) => m.1 == Ok::<Seq<ObjM>, ErrM>(v@.map_values(|o: LoxObj| obj_m(&o))),
        Err(e) => m.1 is Err && (e.err_type, e.pos) == m.1->Err_0,
    }
}

/// What a statement sequence evaluated to: the value of a `return`, if one ran.
pub struct Evaluated {
    pub returned: Option<LoxObj>,
}

pub struct Executor {
    pub state: State,
    pub output: Vec<String>,
}

impl Executor {
    pub open spec fn env(&self) -> EnvM {
        EnvM { scopes: self.state.view_m(), out: out_m(self.output@) }
    }

    pub open spec fn depth(&self) -> nat {
        self.state.view_m().len()
    }

    /// An evaluator with the global scope alone and nothing printed.
    pub fn new() -> (r: Self)
        ensures
            r.env() == (EnvM { scopes: seq![global_scope()], out: Seq::empty() }),
    {
        let r = Executor { state: State::new(), output: Vec::new() };
        assert(out_m(r.output@) =~= Seq::<Seq<char>>::empty());
        r
    }

    /// An evaluator over the given scopes, with nothing printed.
    pub fn from(state: State) -> (r: Self)
        ensures
            r.env() == (EnvM { scopes: state.view_m(), out: Seq::empty() }),
    {
        let r = Executor { state, output: Vec::new() };
        assert(out_m(r.output@) =~= Seq::<Seq<char>>::empty());
        r
    }

    /// Runs a program with the full fuel.
    pub fn execute(&mut self, program: &Program) -> (r: LoxResult<Evaluated>)
        requires
            old(self).depth() > 0,
        ensures
            final(self).depth() == old(self).depth(),
            ({
                let m = run_block(old(self).env(), stmts_m(program@), 0, MAX_FUEL as nat);
                &&& m.0 == final(self).env()
                &&& match r {
                    Ok(ev) => m.1 == Ok::<Option<ObjM>, ErrM>(opt_obj(ev.returned)),
                    Err(e) => m.1 is Err && (e.err_type, e.pos) == m.1->Err_0,
                }
            }),
    {
        match self.run_block(program, MAX_FUEL) {
            Ok(returned) => Ok(Evaluated { returned }),
            Err(e) => Err(e),
        }
    }

    /// Evaluates a token to an object: a literal, or a name looked up through the scopes.
    fn as_lox_obj(&self, token: &Token) -> (r: LoxResult<LoxObj>)
        ensures
            obj_agrees(atom(self.state.view_m(), token@), r),
            token.val is Id && state_get(self.state.view_m(), token.val->Id_0@) is None
                ==> r is Err && not_in_scope(token.pos, token.val->Id_0@, r->Err_0),
    {
        match &token.val {
            TokenValue::Id(_) => self.state.get(token),
            TokenValue::Val(v) => Ok(LoxObj::Plain(v.clone())),
            _ => {
                let d = token.describe();
                eval_err().at(token.pos).is_not(d.as_str(), "a lox object").to_result()
            },
        }
    }

    fn out_of_fuel<A>(pos: Position) -> (r: LoxResult<A>)
        ensures
            r is Err && r->Err_0.err_type == ErrType::InterpreterError && r->Err_0.pos == pos,
    {
        ErrBuilder::new().of_type(ErrType::InterpreterError).at(pos).with_message(
            String::from_str("Evaluation nested too deeply."),
        ).to_result()
    }

    pub fn eval_expr(&mut self, e: &Expr, fuel: u64) -> (r: LoxResult<LoxObj>)
        requires
            old(self).depth() > 0,
        ensures
            final(self).depth() == old(self).depth(),
            ev_obj(eval(old(self).env(), expr_m(e), fuel as nat), final(self).env(), r),
        decreases fuel, 6int,
    {
        match e {
            Expr::Eqlty(q) => self.eval_eqlty(q, fuel),
            Expr::Call(t, _) => {
                if fuel == 0 {
                    return Self::out_of_fuel(t.pos);
                }
                ErrBuilder::new().of_type(ErrType::InterpreterError).at(t.pos).with_message(
                    String::from_str("This form of call is not supported."),
                ).to_result()
            },
        }
    }

    fn eval_eqlty(&mut self, q: &Eqlty, fuel: u64) -> (r: LoxResult<LoxObj>)
        requires
            old(self).depth() > 0,
        ensures
            final(self).depth() == old(self).depth(),
            ev_obj(eval(old(self).env(), eqlty_m(q), fuel as nat), final(self).env(), r),
        decreases fuel, 5int,
    {
        if fuel == 0 {
            return Self::out_of_fuel(locate_eqlty(q));
        }
        let f = fuel - 1;
        let ghost env0 = self.env();
        let first = match self.eval_comp(&q.first, f) {
            Ok(o) => o,
            Err(e) => return Err(e),
        };
        proof {
            lemma_comp_rest(q.rest@);
        }
        let mut acc = first;
        let mut k: usize = 0;
        loop
            invariant
                self.depth() == old(self).depth(),
                self.depth() > 0,
                f as int == fuel - 1,
                k <= q.rest@.len(),
                comp_rest_m(q.rest@).len() == q.rest@.len(),
                forall|j: int| 0 <= j < q.rest@.len() ==> #[trigger] comp_rest_m(q.rest@)[j] == (
                    q.rest@[j].0@,
                    comp_m(&q.rest@[j].1),
                ),
                eval(old(self).env(), eqlty_m(q), fuel as nat) == fold(
                    self.env(),
                    obj_m(&acc),
                    comp_rest_m(q.rest@),
                    k as int,
                    f as nat,
                ),
            decreases q.rest@.len() - k,
        {
            if k >= q.rest.len() {
                return Ok(acc);
            }
            let pair = &q.rest[k];
            let b = match self.eval_comp(&pair.1, f) {
                Ok(o) => o,
                Err(e) => return Err(e),
            };
            acc = match handle(&pair.0, acc, b) {
                Ok(v) => v,
                Err(e) => return Err(e),
            };
            k += 1;
        }
    }

    fn eval_comp(&mut self, q: &Comp, fuel: u64) -> (r: LoxResult<LoxObj>)
        requires
            old(self).depth() > 0,
        ensures
            final(self).depth() == old(self).depth(),
            ev_obj(eval(old(self).env(), comp_m(q), fuel as nat), final(self).env(), r),
        decreases fuel, 4int,
    {
        if fuel == 0 {
            return Self::out_of_fuel(locate_comp(q));
        }
        let f = fuel - 1;
        let ghost env0 = self.env();
        let first = match self.eval_term(&q.first, f) {
            Ok(o) => o,
            Err(e) => return Err(e),
        };
        proof {
            lemma_term_rest(q.rest@);
        }
        let mut acc = first;
        let mut k: usize = 0;
        loop
            invariant
                self.depth() == old(self).depth(),
                self.depth() > 0,
                f as int == fuel - 1,
                k <= q.rest@.len(),
                term_rest_m(q.rest@).len() == q.rest@.len(),
                forall|j: int| 0 <= j < q.rest@.len() ==> #[trigger] term_rest_m(q.rest@)[j] == (
                    q.rest@[j].0@,
                    term_m(&q.rest@[j].1),
                ),
                eval(old(self).env(), comp_m(q), fuel as nat) == fold(
                    self.env(),
                    obj_m(&acc),
                    term_rest_m(q.rest@),
                    k as int,
                    f as nat,
                ),
            decreases q.rest@.len() - k,
        {
            if k >= q.rest.len() {
                return Ok(acc);
            }
            let pair = &q.rest[k];
            let b = match self.eval_term(&pair.1, f) {
                Ok(o) => o,
                Err(e) => return Err(e),
            };
            acc = match handle(&pair.0, acc, b) {
                Ok(v) => v,
                Err(e) => return Err(e),
            };
            k += 1;
        }
    }

    fn eval_term(&mut self, q: &Term, fuel: u64) -> (r: LoxResult<LoxObj>)
        requires
            old(self).depth() > 0,
        ensures
            final(self).depth() == old(self).depth(),
            ev_obj(eval(old(self).env(), term_m(q), fuel as nat), final(self).env(), r),
        decreases fuel, 3int,
    {
        if fuel == 0 {
            return Self::out_of_fuel(locate_term(q));
        }
        let f = fuel - 1;
        let ghost env0 = self.env();
        let first = match self.eval_factor(&q.first, f) {
            Ok(o) => o,
            Err(e) => return Err(e),
        };
        proof {
            lemma_factor_rest(q.rest@);
        }
        let mut acc = first;
        let mut k: usize = 0;
        loop
            invariant
                self.depth() == old(self).depth(),
                self.depth() > 0,
                f as int == fuel - 1,
                k <= q.rest@.len(),
                factor_rest_m(q.rest@).len() == q.rest@.len(),
                forall|j: int| 0 <= j < q.rest@.len() ==> #[trigger] factor_rest_m(q.rest@)[j] == (
                    q.rest@[j].0@,
                    factor_m(&q.rest@[j].1),
                ),
                eval(old(self).env(), term_m(q), fuel as nat) == fold(
                    self.env(),
                    obj_m(&acc),
                    factor_rest_m(q.rest@),
                    k as int,
                    f as nat,
                ),
            decreases q.rest@.len() - k,
        {
            if k >= q.rest.len() {
                return Ok(acc);
            }
            let pair = &q.rest[k];
            let b = match self.eval_factor(&pair.1, f) {
                Ok(o) => o,
                Err(e) => return Err(e),
            };
            acc = match handle(&pair.0, acc, b) {
                Ok(v) => v,
                Err(e) => return Err(e),
            };
            k += 1;
        }
    }

    fn eval_factor(&mut self, q: &Factor, fuel: u64) -> (r: LoxResult<LoxObj>)
        requires
            old(self).depth() > 0,
        ensures
            final(self).depth() == old(self).depth(),
            ev_obj(eval(old(self).env(), factor_m(q), fuel as nat), final(self).env(), r),
        decreases fuel, 2int,
    {
        if fuel == 0 {
            return Self::out_of_fuel(locate_factor(q));
        }
        let f = fuel - 1;
        let ghost env0 = self.env();
        let first = match self.eval_unary(&q.first, f) {
            Ok(o) => o,
            Err(e) => return Err(e),
        };
        proof {
            lemma_unary_rest(q.rest@);
        }
        let mut acc = first;
        let mut k: usize = 0;
        loop
            invariant
                self.depth() == old(self).depth(),
                self.depth() > 0,
                f as int == fuel - 1,
                k <= q.rest@.len(),
                unary_rest_m(q.rest@).len() == q.rest@.len(),
                forall|j: int| 0 <= j < q.rest@.len() ==> #[trigger] unary_rest_m(q.rest@)[j] == (
                    q.rest@[j].0@,
                    unary_m(&q.rest@[j].1),
                ),
                eval(old(self).env(), factor_m(q), fuel as nat) == fold(
                    self.env(),
                    obj_m(&acc),
                    unary_rest_m(q.rest@),
                    k as int,
                    f as nat,
                ),
            decreases q.rest@.len() - k,
        {
            if k >= q.rest.len() {
                return Ok(acc);
            }
            let pair = &q.rest[k];
            let b = match self.eval_unary(&pair.1, f) {
                Ok(o) => o,
                Err(e) => return Err(e),
            };
            acc = match handle(&pair.0, acc, b) {
                Ok(v) => v,
                Err(e) => return Err(e),
            };
            k += 1;
        }
    }

    fn eval_unary(&mut self, u: &Unary, fuel: u64) -> (r: LoxResult<LoxObj>)
        requires
            old(self).depth() > 0,
        ensures
            final(self).depth() == old(self).depth(),
            ev_obj(eval(old(self).env(), unary_m(u), fuel as nat), final(self).env(), r),
        decreases fuel, 1int,
    {
        if fuel == 0 {
            return Self::out_of_fuel(locate_unary(u));
        }
        let f = fuel - 1;
        match u {
            Unary::Final(op, token) => {
                let o = match self.as_lox_obj(token) {
                    Ok(o) => o,
                    Err(e) => return Err(e),
                };
                unary_op(op, o)
            },
            Unary::Recursive(op, e) => {
                let o = match self.eval_expr(e, f) {
                    Ok(o) => o,
                    Err(e) => return Err(e),
                };
                unary_op(op, o)
            },
            Unary::Call(op, fn_name, args) => {
                let func = match self.as_lox_obj(fn_name) {
                    Ok(o) => o,
                    Err(e) => return Err(e),
                };
                let vals = match self.eval_args(args, f) {
                    Ok(v) => v,
                    Err(e) => return Err(e),
                };
                let out = match self.call(&func, vals, fn_name.pos, f) {
                    Ok(o) => o,
                    Err(e) => return Err(e),
                };
                unary_op(op, out)
            },
        }
    }

    /// Evaluates call arguments left to right.
    fn eval_args(&mut self, args: &Vec<Box<Expr>>, fuel: u64) -> (r: LoxResult<Vec<LoxObj>>)
        requires
            old(self).depth() > 0,
        ensures
            final(self).depth() == old(self).depth(),
            ev_vals(eval_args(old(self).env(), boxed_m(args@), 0, fuel as nat), final(self).env(), r),
        decreases fuel, 7int,
    {
        proof {
            lemma_boxed(args@);
        }
        let mut vals: Vec<LoxObj> = Vec::new();
        let mut k: usize = 0;
        loop
            invariant
                self.depth() == old(self).depth(),
                self.depth() > 0,
                k <= args@.len(),
                boxed_m(args@).len() == args@.len(),
                forall|j: int| 0 <= j < args@.len() ==> #[trigger] boxed_m(args@)[j] == expr_m(
                    &*args@[j],
                ),
                ({
                    let m = eval_args(old(self).env(), boxed_m(args@), 0, fuel as nat);
                    let n = eval_args(self.env(), boxed_m(args@), k as int, fuel as nat);
                    &&& m.0 == n.0
                    &&& m.1 == match n.1 {
                        Ok(vs) => Ok::<Seq<ObjM>, ErrM>(vals@.map_values(|o: LoxObj| obj_m(&o)) + vs),
                        Err(x) => Err(x),
                    }
                }),
            decreases args@.len() - k,
        {
            if k >= args.len() {
                assert(vals@.map_values(|o: LoxObj| obj_m(&o)) + Seq::<ObjM>::empty()
                    =~= vals@.map_values(|o: LoxObj| obj_m(&o)));
                return Ok(vals);
            }
            let v = match self.eval_expr(&args[k], fuel) {
                Ok(o) => o,
                Err(e) => return Err(e),
            };
            let ghost before = vals@.map_values(|o: LoxObj| obj_m(&o));
            let ghost vm = obj_m(&v);
            vals.push(v);
            assert(vals@.map_values(|o: LoxObj| obj_m(&o)) =~= before.push(vm));
            proof {
                let n = eval_args(self.env(), boxed_m(args@), (k + 1) as int, fuel as nat);
                match n.1 {
                    Ok(vs) => {
                        assert(before + (seq![vm] + vs) =~= before.push(vm) + vs);
                    },
                    Err(_) => {},
                }
            }
            k += 1;
        }
    }

    /// Calls an object with evaluated arguments.
    fn call(&mut self, func: &LoxObj, args: Vec<LoxObj>, pos: Position, fuel: u64) -> (r: LoxResult<
        LoxObj,
    >)
        requires
            old(self).depth() > 0,
        ensures
            final(self).depth() == old(self).depth(),
            ev_obj(
                call(
                    old(self).env(),
                    obj_m(func),
                    args@.map_values(|o: LoxObj| obj_m(&o)),
                    pos,
                    fuel as nat,
                ),
                final(self).env(),
                r,
            ),
        decreases fuel, 9int,
    {
        match func {
            LoxObj::Fun(def) => self.call_function(def, args, pos, fuel),
            LoxObj::Inbuilt(name) => call_inbuilt(name, &args, pos),
            LoxObj::Class(c) => {
                eval_err().at(pos).with_message(
                    String::from_str("A class cannot be called."),
                ).to_result()
            },
            LoxObj::Plain(v) => {
                let d = v.describe();
                eval_err().at(pos).is_not(d.as_str(), "callable").to_result()
            },
        }
    }

    /// Runs a function body in a new innermost scope that binds the parameters by position.
    fn call_function(
        &mut self,
        function: &Rc<FunctionDefinition>,
        args: Vec<LoxObj>,
        pos: Position,
        fuel: u64,
    ) -> (r: LoxResult<LoxObj>)
        requires
            old(self).depth() > 0,
        ensures
            final(self).depth() == old(self).depth(),
            ev_obj(
                call(
                    old(self).env(),
                    ObjM::Fun(crate::structure::fun_m(&**function)),
                    args@.map_values(|o: LoxObj| obj_m(&o)),
                    pos,
                    fuel as nat,
                ),
                final(self).env(),
                r,
            ),
        decreases fuel, 8int,
    {
        if fuel == 0 {
            return Self::out_of_fuel(pos);
        }
        let ghost names = names_m(function.args@);
        let ghost vals = args@.map_values(|o: LoxObj| obj_m(&o));
        self.state.push_new_scope();
        let ghost start = self.state.view_m();
        let mut i: usize = 0;
        while i < function.args.len() && i < args.len()
            invariant
                self.depth() == old(self).depth() + 1,
                names == names_m(function.args@),
                vals == args@.map_values(|o: LoxObj| obj_m(&o)),
                i <= function.args@.len(),
                bind_params(start, names, vals, 0) == bind_params(
                    self.state.view_m(),
                    names,
                    vals,
                    i as int,
                ),
                self.output@ == old(self).output@,
            decreases function.args@.len() - i,
        {
            let name = function.args[i].clone();
            let val = args[i].clone();
            self.state.define(name, val);
            i += 1;
        }
        let result = self.run_block(&function.body, fuel - 1);
        self.state.pop_last_scope();
        match result {
            Ok(Some(o)) => Ok(o),
            Ok(None) => Ok(LoxObj::Plain(crate::tokens::LoxValue::Integer(0))),
            Err(e) => Err(e),
        }
    }

    /// Runs statements in order up to the first that returns or fails.
    pub fn run_block(&mut self, body: &Vec<Statement>, fuel: u64) -> (r: LoxResult<Option<LoxObj>>)
        requires
            old(self).depth() > 0,
        ensures
            final(self).depth() == old(self).depth(),
            ev_stmt(run_block(old(self).env(), stmts_m(body@), 0, fuel as nat), final(self).env(), r),
        decreases fuel, 11int,
    {
        proof {
            lemma_stmts(body@);
        }
        let mut k: usize = 0;
        loop
            invariant
                self.depth() == old(self).depth(),
                self.depth() > 0,
                k <= body@.len(),
                stmts_m(body@).len() == body@.len(),
                forall|j: int| 0 <= j < body@.len() ==> #[trigger] stmts_m(body@)[j] == stmt_m(&body@[j]),
                run_block(old(self).env(), stmts_m(body@), 0, fuel as nat) == run_block(
                    self.env(),
                    stmts_m(body@),
                    k as int,
                    fuel as nat,
                ),
            decreases body@.len() - k,
        {
            if k >= body.len() {
                return Ok(None);
            }
            match self.exec_stmt(&body[k], fuel) {
                Ok(Some(o)) => return Ok(Some(o)),
                Ok(None) => {},
                Err(e) => return Err(e),
            }
            k += 1;
        }
    }

    /// Runs a block in a new innermost scope, removed afterwards whatever the outcome.
    pub fn scoped(&mut self, body: &Vec<Statement>, fuel: u64) -> (r: LoxResult<Option<LoxObj>>)
        requires
            old(self).depth() > 0,
        ensures
            final(self).depth() == old(self).depth(),
            ev_stmt(scoped(old(self).env(), stmts_m(body@), fuel as nat), final(self).env(), r),
        decreases fuel, 12int,
    {
        self.state.push_new_scope();
        let result = self.run_block(body, fuel);
        self.state.pop_last_scope();
        result
    }

    fn while_loop(&mut self, cond: &Expr, body: &Vec<Statement>, fuel: u64) -> (r: LoxResult<
        Option<LoxObj>,
    >)
        requires
            old(self).depth() > 0,
        ensures
            final(self).depth() == old(self).depth(),
            ev_stmt(
                while_loop(old(self).env(), expr_m(cond), stmts_m(body@), fuel as nat),
                final(self).env(),
                r,
            ),
        decreases fuel, 13int,
    {
        let mut f = fuel;
        loop
            invariant
                self.depth() == old(self).depth(),
                self.depth() > 0,
                f <= fuel,
                while_loop(old(self).env(), expr_m(cond), stmts_m(body@), fuel as nat) == while_loop(
                    self.env(),
                    expr_m(cond),
                    stmts_m(body@),
                    f as nat,
                ),
            decreases f,
        {
            if f == 0 {
                return Self::out_of_fuel(locate_expr(cond));
            }
            let c = match self.eval_expr(cond, f - 1) {
                Ok(o) => o,
                Err(e) => return Err(e),
            };
            let go = match &c {
                LoxObj::Plain(v) => v.is_truthy(),
                _ => {
                    return eval_err().without_pos().with_message(
                        String::from_str("could not evaluate while stmt condition"),
                    ).to_result();
                },
            };
            if !go {
                return Ok(None);
            }
            match self.scoped(body, f - 1) {
                Ok(Some(o)) => return Ok(Some(o)),
                Ok(None) => {},
                Err(e) => return Err(e),
            }
            f = f - 1;
        }
    }

    pub fn exec_stmt(&mut self, stmt: &Statement, fuel: u64) -> (r: LoxResult<Option<LoxObj>>)
        requires
            old(self).depth() > 0,
        ensures
            final(self).depth() == old(self).depth(),
            ev_stmt(exec_stmt(old(self).env(), stmt_m(stmt), fuel as nat), final(self).env(), r),
        decreases fuel, 10int,
    {
        if fuel == 0 {
            return Self::out_of_fuel(Position { line: 0, line_pos: 0 });
        }
        let f = fuel - 1;
        match stmt {
            Statement::Expr(e) => match self.eval_expr(e, f) {
                Ok(_) => Ok(None),
                Err(e) => Err(e),
            },
            Statement::Print(e) => match self.eval_expr(e, f) {
                Ok(o) => {
                    let line = o.to_string();
                    let ghost before = self.output@;
                    self.output.push(line);
                    assert(out_m(self.output@) =~= out_m(before).push(render_line(&o)));
                    Ok(None)
                },
                Err(e) => Err(e),
            },
            Statement::If(cond, body) => {
                let c = match self.eval_expr(cond, f) {
                    Ok(o) => o,
                    Err(e) => return Err(e),
                };
                match &c {
                    LoxObj::Plain(v) => if v.is_truthy() {
                        self.scoped(body, f)
                    } else {
                        Ok(None)
                    },
                    _ => eval_err().at(locate_expr(cond)).with_message(
                        String::from_str("could not evaluate if stmt condition"),
                    ).to_result(),
                }
            },
            Statement::WhileLoop(cond, body) => self.while_loop(cond, body, f),
            Statement::Let(lval, rval) => match self.eval_expr(&rval.expr, f) {
                Ok(o) => {
                    self.state.bind(lval.identifier.clone(), o);
                    Ok(None)
                },
                Err(e) => Err(e),
            },
            Statement::Fun(_, def) => {
                self.state.define(def.name.clone(), LoxObj::Fun(Rc::clone(def)));
                Ok(None)
            },
            Statement::Return(e) => match self.eval_expr(e, f) {
                Ok(o) => Ok(Some(o)),
                Err(e) => Err(e),
            },
            Statement::Class(def) => {
                let name = match &def.name.val {
                    TokenValue::Id(n) => n.clone(),
                    _ => String::new(),
                };
                self.state.bind(name, LoxObj::Class(Rc::clone(def)));
                Ok(None)
            },
        }
    }
}

pub open spec fn render_line(o: &LoxObj) -> Seq<char> {
    crate::definitions::render_obj(obj_m(o))
}

} // verus!
