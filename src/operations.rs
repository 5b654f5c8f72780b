//! Unary and binary operators, and the built-in functions.

use vstd::prelude::*;
use vstd::string::*;
use crate::definitions::{obj_m, LoxObj, ObjM};
use crate::errors::{ErrBuilder, ErrType, LoxError, LoxResult, Position};
use crate::scanner::ErrM;
use crate::semantics::{arith, binop, inbuilt, negation, unary_apply};
use crate::tokens::{LoxValue, Punct, TokM, Token, TokenValue, ValM};

verus! {

/// `r` is the outcome that the spec outcome `m` describes.
pub open spec fn obj_agrees(m: Result<ObjM, ErrM>, r: LoxResult<LoxObj>) -> bool {
    match r {
        Ok(o) => m == Ok::<ObjM, ErrM>(obj_m(&o)),
        Err(e) => m is Err && (e.err_type, e.pos) == m->Err_0,
    }
}

pub fn eval_err() -> (r: ErrBuilder)
    ensures
        r.err_type == Some(ErrType::LogicError),
        r.message is None,
        r.while_info is None,
        r.pos is None,
{
    ErrBuilder::new().of_type(ErrType::LogicError)
}

/// `op` applied to two plain values; `None` where the types do not fit or the result
/// overflows.
pub fn arith_values(op: Punct, a: &LoxValue, b: &LoxValue) -> (r: Option<LoxValue>)
    ensures
        match arith(op, a@, b@) {
            Some(v) => r is Some && r->Some_0@ == v,
            None => r is None,
        },
{
    match op {
        Punct::Star => match (a, b) {
            (LoxValue::Integer(x), LoxValue::Integer(y)) => match x.checked_mul(*y) {
                Some(z) => Some(LoxValue::Integer(z)),
                None => None,
            },
            (LoxValue::Boolean(x), LoxValue::Boolean(y)) => Some(LoxValue::Boolean(*x && *y)),
            _ => None,
        },
        Punct::Plus => match (a, b) {
            (LoxValue::Integer(x), LoxValue::Integer(y)) => match x.checked_add(*y) {
                Some(z) => Some(LoxValue::Integer(z)),
                None => None,
            },
            (LoxValue::Boolean(x), LoxValue::Boolean(y)) => Some(LoxValue::Boolean(*x || *y)),
            _ => None,
        },
        Punct::Minus => match (a, b) {
            (LoxValue::Integer(x), LoxValue::Integer(y)) => match x.checked_sub(*y) {
                Some(z) => Some(LoxValue::Integer(z)),
                None => None,
            },
            (LoxValue::Boolean(x), LoxValue::Boolean(y)) => Some(LoxValue::Boolean(*x && !*y)),
            _ => None,
        },
        Punct::EqualEqual => match (a, b) {
            (LoxValue::Integer(x), LoxValue::Integer(y)) => Some(LoxValue::Boolean(*x == *y)),
            (LoxValue::Boolean(x), LoxValue::Boolean(y)) => Some(LoxValue::Boolean(*x == *y)),
            (LoxValue::String(x), LoxValue::String(y)) => Some(LoxValue::Boolean(*x == *y)),
            _ => None,
        },
        Punct::BangEqual => match (a, b) {
            (LoxValue::Integer(x), LoxValue::Integer(y)) => Some(LoxValue::Boolean(*x != *y)),
            (LoxValue::Boolean(x), LoxValue::Boolean(y)) => Some(LoxValue::Boolean(*x != *y)),
            (LoxValue::String(x), LoxValue::String(y)) => Some(LoxValue::Boolean(!(*x == *y))),
            _ => None,
        },
        _ => None,
    }
}

/// Applies the binary operator `op` to the accumulated value and the next operand.
pub fn handle(op: &Token, acc: LoxObj, val: LoxObj) -> (r: LoxResult<LoxObj>)
    ensures
        obj_agrees(binop(op@, obj_m(&acc), obj_m(&val)), r),
{
    let a = match acc {
        LoxObj::Plain(v) => v,
        _ => {
            return eval_err().at(op.pos).with_message(
                String::from_str("The left operand is not a value."),
            ).to_result();
        },
    };
    let b = match val {
        LoxObj::Plain(v) => v,
        _ => {
            return eval_err().at(op.pos).with_message(
                String::from_str("The right operand is not a value."),
            ).to_result();
        },
    };
    let p = match &op.val {
        TokenValue::Punct(p) => *p,
        _ => {
            let d = op.describe();
            return eval_err().at(op.pos).is_not(d.as_str(), "a valid lox operation").to_result();
        },
    };
    match arith_values(p, &a, &b) {
        Some(v) => Ok(LoxObj::Plain(v)),
        None => {
            let da = a.describe();
            let db = b.describe();
            eval_err().at(op.pos).cant_perform_a_on_b_and_c(p.name(), da.as_str(), db.as_str()).to_result()
        },
    }
}

/// `-` on an object: integer negation or boolean inversion.
pub fn negate(raw: &LoxObj, at: Position) -> (r: LoxResult<LoxObj>)
    ensures
        obj_agrees(negation(obj_m(raw), at), r),
{
    match raw {
        LoxObj::Plain(LoxValue::Boolean(b)) => Ok(LoxObj::Plain(LoxValue::Boolean(!*b))),
        LoxObj::Plain(LoxValue::Integer(i)) => {
            if *i == i64::MIN {
                eval_err().at(at).with_message(
                    String::from_str("Negation overflows."),
                ).while_("evaluating unary expression").to_result()
            } else {
                Ok(LoxObj::Plain(LoxValue::Integer(-*i)))
            }
        },
        _ => {
            let d = raw.to_string();
            eval_err().at(at).is_not(d.as_str(), "negatable").while_(
                "evaluating unary expression",
            ).to_result()
        },
    }
}

/// Applies the leading operator `op`, if there is one, to `right`.
pub fn unary_op(op: &Option<Token>, right: LoxObj) -> (r: LoxResult<LoxObj>)
    ensures
        obj_agrees(unary_apply(crate::structure::opt_tok(*op), obj_m(&right)), r),
{
    match op {
        None => Ok(right),
        Some(t) => {
            if t.equals_punct(Punct::Minus) {
                negate(&right, t.pos)
            } else {
                let d = t.describe();
                eval_err().at(t.pos).is_not(d.as_str(), "a unary operator").to_result()
            }
        },
    }
}

fn runtime_err_at(pos: Position) -> (r: ErrBuilder)
    ensures
        r.err_type == Some(ErrType::RuntimeError),
        r.pos == Some(pos),
        r.message is None,
        r.while_info is None,
{
    ErrBuilder::new().of_type(ErrType::RuntimeError).at(pos)
}

/// The remainder of two integers, as Rust's `%` gives it; zero divisors and overflow fail.
pub fn modulo(a: &LoxObj, b: &LoxObj, pos: Position) -> (r: LoxResult<LoxObj>)
    ensures
        match (obj_m(a), obj_m(b)) {
            (ObjM::Plain(ValM::Integer(x)), ObjM::Plain(ValM::Integer(y))) => match x.checked_rem(
                y,
            ) {
                Some(z) => obj_agrees(Ok(ObjM::Plain(ValM::Integer(z))), r),
                None => r is Err && r->Err_0.err_type == ErrType::RuntimeError && r->Err_0.pos == pos,
            },
            _ => r is Err && r->Err_0.err_type == ErrType::RuntimeError && r->Err_0.pos == pos,
        },
{
    match (a, b) {
        (LoxObj::Plain(LoxValue::Integer(x)), LoxObj::Plain(LoxValue::Integer(y))) => {
            match x.checked_rem(*y) {
                Some(z) => Ok(LoxObj::Plain(LoxValue::Integer(z))),
                None => runtime_err_at(pos).with_message(
                    String::from_str("Remainder by zero or out of range."),
                ).to_result(),
            }
        },
        _ => runtime_err_at(pos).with_message(
            String::from_str("mod takes two integers."),
        ).to_result(),
    }
}

/// Calls the built-in function `name`.
pub fn call_inbuilt(name: &String, args: &Vec<LoxObj>, pos: Position) -> (r: LoxResult<LoxObj>)
    ensures
        obj_agrees(inbuilt(name@, args@.map_values(|o: LoxObj| obj_m(&o)), pos), r),
{
    if crate::tokens::str_eq(name.as_str(), "mod") && args.len() == 2 {
        modulo(&args[0], &args[1], pos)
    } else {
        runtime_err_at(pos).with_message(
            String::from_str("Unknown built-in function or wrong number of arguments."),
        ).to_result()
    }
}

} // verus!
