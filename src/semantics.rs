//! What running a program means: functions from an environment, a syntax tree and a fuel
//! bound to the environment after it and the result.
//!
//! Fuel bounds the depth of evaluation: every nested evaluation, call and loop iteration
//! spends one unit, and evaluation that runs out of fuel ends in an `InterpreterError`.

use vstd::prelude::*;
use crate::definitions::{class_name, render_obj, ObjM};
use crate::errors::{ErrType, Position};
use crate::scanner::ErrM;
use crate::state::{state_bind, state_define, state_get, ScopeM};
use crate::structure::{ExprM, StmtM};
use crate::tokens::{is_punct, truthy, Punct, TokM, TokV, ValM};

verus! {

/// The environment of a running program: its scopes and the lines it printed.
pub struct EnvM {
    pub scopes: Seq<ScopeM>,
    pub out: Seq<Seq<char>>,
}

pub type Ev<A> = (EnvM, Result<A, ErrM>);

/// The position of the first token of an expression.
pub open spec fn locate(e: ExprM) -> Position
    decreases e,
{
    match e {
        ExprM::Chain(first, _) => locate(*first),
        ExprM::Final(Some(op), _) => op.pos,
        ExprM::Final(None, t) => t.pos,
        ExprM::Group(Some(op), _) => op.pos,
        ExprM::Group(None, inner) => locate(*inner),
        ExprM::Call(Some(op), _, _) => op.pos,
        ExprM::Call(None, t, _) => t.pos,
        ExprM::Direct(t, _) => t.pos,
    }
}

/// A binary operator on two plain values; `None` where the operand types do not fit the
/// operator or an integer result leaves the range of `i64`.
pub open spec fn arith(op: Punct, a: ValM, b: ValM) -> Option<ValM> {
    match op {
        Punct::Star => match (a, b) {
            (ValM::Integer(x), ValM::Integer(y)) => match x.checked_mul(y) {
                Some(z) => Some(ValM::Integer(z)),
                None => None,
            },
            (ValM::Boolean(x), ValM::Boolean(y)) => Some(ValM::Boolean(x && y)),
            _ => None,
        },
        Punct::Plus => match (a, b) {
            (ValM::Integer(x), ValM::Integer(y)) => match x.checked_add(y) {
                Some(z) => Some(ValM::Integer(z)),
                None => None,
            },
            (ValM::Boolean(x), ValM::Boolean(y)) => Some(ValM::Boolean(x || y)),
            _ => None,
        },
        Punct::Minus => match (a, b) {
            (ValM::Integer(x), ValM::Integer(y)) => match x.checked_sub(y) {
                Some(z) => Some(ValM::Integer(z)),
                None => None,
            },
            (ValM::Boolean(x), ValM::Boolean(y)) => Some(ValM::Boolean(x && !y)),
            _ => None,
        },
        Punct::EqualEqual => match (a, b) {
            (ValM::Integer(x), ValM::Integer(y)) => Some(ValM::Boolean(x == y)),
            (ValM::Boolean(x), ValM::Boolean(y)) => Some(ValM::Boolean(x == y)),
            (ValM::Str(x), ValM::Str(y)) => Some(ValM::Boolean(x == y)),
            _ => None,
        },
        Punct::BangEqual => match (a, b) {
            (ValM::Integer(x), ValM::Integer(y)) => Some(ValM::Boolean(x != y)),
            (ValM::Boolean(x), ValM::Boolean(y)) => Some(ValM::Boolean(x != y)),
            (ValM::Str(x), ValM::Str(y)) => Some(ValM::Boolean(x != y)),
            _ => None,
        },
        _ => None,
    }
}

/// A binary operation on two objects, with errors placed at the operator.
pub open spec fn binop(op: TokM, a: ObjM, b: ObjM) -> Result<ObjM, ErrM> {
    match (a, b) {
        (ObjM::Plain(x), ObjM::Plain(y)) => match op.val {
            TokV::Punct(p) => match arith(p, x, y) {
                Some(v) => Ok(ObjM::Plain(v)),
                None => Err((ErrType::LogicError, op.pos)),
            },
            _ => Err((ErrType::LogicError, op.pos)),
        },
        _ => Err((ErrType::LogicError, op.pos)),
    }
}

/// `-` on an object: integer negation or boolean inversion.
pub open spec fn negation(o: ObjM, pos: Position) -> Result<ObjM, ErrM> {
    match o {
        ObjM::Plain(ValM::Boolean(b)) => Ok(ObjM::Plain(ValM::Boolean(!b))),
        ObjM::Plain(ValM::Integer(i)) => if i == i64::MIN {
            Err((ErrType::LogicError, pos))
        } else {
            Ok(ObjM::Plain(ValM::Integer((-i) as i64)))
        },
        _ => Err((ErrType::LogicError, pos)),
    }
}

/// Applies an optional leading operator.
pub open spec fn unary_apply(op: Option<TokM>, o: ObjM) -> Result<ObjM, ErrM> {
    match op {
        None => Ok(o),
        Some(t) => if is_punct(t, Punct::Minus) {
            negation(o, t.pos)
        } else {
            Err((ErrType::LogicError, t.pos))
        },
    }
}

/// A single token as an operand: a literal, or a name looked up through the scopes.
pub open spec fn atom(scopes: Seq<ScopeM>, t: TokM) -> Result<ObjM, ErrM> {
    match t.val {
        TokV::Id(n) => match state_get(scopes, n) {
            Some(o) => Ok(o),
            None => Err((ErrType::LogicError, t.pos)),
        },
        TokV::Val(v) => Ok(ObjM::Plain(v)),
        _ => Err((ErrType::LogicError, t.pos)),
    }
}

/// The built-in functions; `mod` takes two integers.
pub open spec fn inbuilt(name: Seq<char>, args: Seq<ObjM>, pos: Position) -> Result<ObjM, ErrM> {
    if name == "mod"@ && args.len() == 2 {
        match (args[0], args[1]) {
            (ObjM::Plain(ValM::Integer(a)), ObjM::Plain(ValM::Integer(b))) => match a.checked_rem(
                b,
            ) {
                Some(z) => Ok(ObjM::Plain(ValM::Integer(z))),
                None => Err((ErrType::RuntimeError, pos)),
            },
            _ => Err((ErrType::RuntimeError, pos)),
        }
    } else {
        Err((ErrType::RuntimeError, pos))
    }
}

pub open spec fn out_of_fuel(pos: Position) -> ErrM {
    (ErrType::InterpreterError, pos)
}

pub open spec fn with_scopes(env: EnvM, scopes: Seq<ScopeM>) -> EnvM {
    EnvM { scopes, out: env.out }
}

/// Binds each parameter name to the argument in its place, in the innermost scope;
/// names or arguments beyond the shorter list are left out.
pub open spec fn bind_params(
    st: Seq<ScopeM>,
    names: Seq<Seq<char>>,
    vals: Seq<ObjM>,
    i: int,
) -> Seq<ScopeM>
    decreases names.len() - i,
{
    if i < 0 || i >= names.len() || i >= vals.len() {
        st
    } else {
        bind_params(state_define(st, names[i], vals[i]), names, vals, i + 1)
    }
}

pub open spec fn eval(env: EnvM, e: ExprM, fuel: nat) -> Ev<ObjM>
    decreases fuel, 0int,
{
    if fuel == 0 {
        (env, Err(out_of_fuel(locate(e))))
    } else {
        let f = (fuel - 1) as nat;
        match e {
            ExprM::Chain(first, rest) => {
                let (env1, r) = eval(env, *first, f);
                match r {
                    Err(x) => (env1, Err(x)),
                    Ok(a) => fold(env1, a, rest, 0, f),
                }
            },
            ExprM::Final(op, t) => (
                env,
                match atom(env.scopes, t) {
                    Err(x) => Err(x),
                    Ok(o) => unary_apply(op, o),
                },
            ),
            ExprM::Group(op, inner) => {
                let (env1, r) = eval(env, *inner, f);
                (
                    env1,
                    match r {
                        Err(x) => Err(x),
                        Ok(o) => unary_apply(op, o),
                    },
                )
            },
            ExprM::Call(op, callee, args) => match atom(env.scopes, callee) {
                Err(x) => (env, Err(x)),
                Ok(func) => {
                    let (env1, r) = eval_args(env, args, 0, f);
                    match r {
                        Err(x) => (env1, Err(x)),
                        Ok(vals) => {
                            let (env2, c) = call(env1, func, vals, callee.pos, f);
                            (
                                env2,
                                match c {
                                    Err(x) => Err(x),
                                    Ok(o) => unary_apply(op, o),
                                },
                            )
                        },
                    }
                },
            },
            ExprM::Direct(t, _) => (env, Err((ErrType::InterpreterError, t.pos))),
        }
    }
}

/// Folds the (operator, operand) pairs from index `k` on into the accumulator, left to right.
pub open spec fn fold(env: EnvM, acc: ObjM, rest: Seq<(TokM, ExprM)>, k: int, fuel: nat) -> Ev<
    ObjM,
>
    decreases fuel, rest.len() - k,
{
    if k < 0 || k >= rest.len() {
        (env, Ok(acc))
    } else {
        let (env1, r) = eval(env, rest[k].1, fuel);
        match r {
            Err(x) => (env1, Err(x)),
            Ok(b) => match binop(rest[k].0, acc, b) {
                Err(x) => (env1, Err(x)),
                Ok(v) => fold(env1, v, rest, k + 1, fuel),
            },
        }
    }
}

/// Evaluates the arguments from index `k` on, left to right.
pub open spec fn eval_args(env: EnvM, args: Seq<ExprM>, k: int, fuel: nat) -> Ev<Seq<ObjM>>
    decreases fuel, args.len() - k,
{
    if k < 0 || k >= args.len() {
        (env, Ok(Seq::empty()))
    } else {
        let (env1, r) = eval(env, args[k], fuel);
        match r {
            Err(x) => (env1, Err(x)),
            Ok(v) => {
                let (env2, rs) = eval_args(env1, args, k + 1, fuel);
                (
                    env2,
                    match rs {
                        Err(x) => Err(x),
                        Ok(vs) => Ok(seq![v] + vs),
                    },
                )
            },
        }
    }
}

/// Calls an object: a function runs its body in a new innermost scope that binds its
/// parameters, and yields what it returned, or the integer zero.
pub open spec fn call(env: EnvM, func: ObjM, vals: Seq<ObjM>, pos: Position, fuel: nat) -> Ev<
    ObjM,
>
    decreases fuel, 0int,
{
    match func {
        ObjM::Fun(d) => if fuel == 0 {
            (env, Err(out_of_fuel(pos)))
        } else {
            let scopes = bind_params(env.scopes.push(Seq::empty()), d.args, vals, 0);
            let (env1, r) = run_block(with_scopes(env, scopes), d.body, 0, (fuel - 1) as nat);
            (
                with_scopes(env1, env1.scopes.drop_last()),
                match r {
                    Err(x) => Err(x),
                    Ok(Some(o)) => Ok(o),
                    Ok(None) => Ok(ObjM::Plain(ValM::Integer(0))),
                },
            )
        },
        ObjM::Inbuilt(n) => (env, inbuilt(n, vals, pos)),
        _ => (env, Err((ErrType::LogicError, pos))),
    }
}

/// Runs the statements from index `k` on, up to the first that returns or fails.
pub open spec fn run_block(env: EnvM, body: Seq<StmtM>, k: int, fuel: nat) -> Ev<Option<ObjM>>
    decreases fuel, body.len() - k + 1,
{
    if k < 0 || k >= body.len() {
        (env, Ok(None))
    } else {
        let (env1, r) = exec_stmt(env, body[k], fuel);
        match r {
            Err(x) => (env1, Err(x)),
            Ok(Some(o)) => (env1, Ok(Some(o))),
            Ok(None) => run_block(env1, body, k + 1, fuel),
        }
    }
}

/// Runs a block in a new innermost scope, which is removed afterwards whatever the outcome.
pub open spec fn scoped(env: EnvM, body: Seq<StmtM>, fuel: nat) -> Ev<Option<ObjM>>
    decreases fuel, body.len() + 2,
{
    let (env1, r) = run_block(with_scopes(env, env.scopes.push(Seq::empty())), body, 0, fuel);
    (with_scopes(env1, env1.scopes.drop_last()), r)
}

pub open spec fn while_loop(env: EnvM, c: ExprM, body: Seq<StmtM>, fuel: nat) -> Ev<Option<ObjM>>
    decreases fuel, 1int,
{
    if fuel == 0 {
        (env, Err(out_of_fuel(locate(c))))
    } else {
        let f = (fuel - 1) as nat;
        let (env1, r) = eval(env, c, f);
        match r {
            Err(x) => (env1, Err(x)),
            Ok(ObjM::Plain(v)) => if truthy(v) {
                let (env2, b) = scoped(env1, body, f);
                match b {
                    Err(x) => (env2, Err(x)),
                    Ok(Some(o)) => (env2, Ok(Some(o))),
                    Ok(None) => while_loop(env2, c, body, f),
                }
            } else {
                (env1, Ok(None))
            },
            Ok(_) => (env1, Err((ErrType::LogicError, Position { line: 0, line_pos: 0 }))),
        }
    }
}

pub open spec fn exec_stmt(env: EnvM, s: StmtM, fuel: nat) -> Ev<Option<ObjM>>
    decreases fuel, 0int,
{
    if fuel == 0 {
        (env, Err(out_of_fuel(Position { line: 0, line_pos: 0 })))
    } else {
        let f = (fuel - 1) as nat;
        match s {
            StmtM::Expr(e) => {
                let (env1, r) = eval(env, e, f);
                (
                    env1,
                    match r {
                        Err(x) => Err(x),
                        Ok(_) => Ok(None),
                    },
                )
            },
            StmtM::Print(e) => {
                let (env1, r) = eval(env, e, f);
                match r {
                    Err(x) => (env1, Err(x)),
                    Ok(o) => (EnvM { scopes: env1.scopes, out: env1.out.push(render_obj(o)) }, Ok(None)),
                }
            },
            StmtM::If(c, body) => {
                let (env1, r) = eval(env, c, f);
                match r {
                    Err(x) => (env1, Err(x)),
                    Ok(ObjM::Plain(v)) => if truthy(v) {
                        scoped(env1, body, f)
                    } else {
                        (env1, Ok(None))
                    },
                    Ok(_) => (env1, Err((ErrType::LogicError, locate(c)))),
                }
            },
            StmtM::While(c, body) => while_loop(env, c, body, f),
            StmtM::Let(n, e) => {
                let (env1, r) = eval(env, e, f);
                match r {
                    Err(x) => (env1, Err(x)),
                    Ok(o) => (with_scopes(env1, state_bind(env1.scopes, n, o)), Ok(None)),
                }
            },
            StmtM::Fun(_, d) => (
                with_scopes(env, state_define(env.scopes, d.name, ObjM::Fun(d))),
                Ok(None),
            ),
            StmtM::Return(e) => {
                let (env1, r) = eval(env, e, f);
                (
                    env1,
                    match r {
                        Err(x) => Err(x),
                        Ok(o) => Ok(Some(o)),
                    },
                )
            },
            StmtM::Class(c) => (
                with_scopes(env, state_bind(env.scopes, class_name(c), ObjM::Class(c))),
                Ok(None),
            ),
        }
    }
}

} // verus!
