//! What a name can be bound to: a plain value, a function, a built-in function or a class.

use vstd::prelude::*;
use vstd::string::*;
use std::rc::Rc;
use crate::structure::{class_m, fun_m, ClassDefinition, ClassM, FunM, FunctionDefinition};
use crate::text::concat2;
use crate::tokens::{render_value, LoxValue, TokV, ValM};

verus! {

#[derive(Debug)]
pub enum LoxObj {
    Plain(LoxValue),
    Fun(Rc<FunctionDefinition>),
    Inbuilt(String),
    Class(Rc<ClassDefinition>),
}

/// What a `LoxObj` holds.
pub enum ObjM {
    Plain(ValM),
    Fun(FunM),
    Inbuilt(Seq<char>),
    Class(ClassM),
}

pub open spec fn obj_m(o: &LoxObj) -> ObjM {
    match o {
        LoxObj::Plain(v) => ObjM::Plain(v@),
        LoxObj::Fun(f) => ObjM::Fun(fun_m(&**f)),
        LoxObj::Inbuilt(n) => ObjM::Inbuilt(n@),
        LoxObj::Class(c) => ObjM::Class(class_m(&**c)),
    }
}

/// The name that a class definition carries.
pub open spec fn class_name(c: ClassM) -> Seq<char> {
    match c.name.val {
        TokV::Id(n) => n,
        _ => Seq::empty(),
    }
}

/// How `print` shows an object.
pub open spec fn render_obj(o: ObjM) -> Seq<char> {
    match o {
        ObjM::Plain(v) => render_value(v),
        ObjM::Fun(f) => "Function "@ + f.name,
        ObjM::Inbuilt(n) => "Inbuilt Function "@ + n,
        ObjM::Class(c) => "Class "@ + class_name(c),
    }
}

impl Clone for LoxObj {
    fn clone(&self) -> (r: Self)
        ensures
            obj_m(&r) == obj_m(self),
    {
        match self {
            LoxObj::Plain(v) => LoxObj::Plain(v.clone()),
            LoxObj::Fun(f) => LoxObj::Fun(Rc::clone(f)),
            LoxObj::Inbuilt(n) => LoxObj::Inbuilt(n.clone()),
            LoxObj::Class(c) => LoxObj::Class(Rc::clone(c)),
        }
    }
}

impl LoxObj {
    /// The object as `print` shows it.
    pub fn to_string(&self) -> (r: String)
        ensures
            r@ == render_obj(obj_m(self)),
    {
        match self {
            LoxObj::Plain(v) => v.render(),
            LoxObj::Fun(f) => concat2("Function ", f.name.as_str()),
            LoxObj::Inbuilt(n) => concat2("Inbuilt Function ", n.as_str()),
            LoxObj::Class(c) => match &c.name.val {
                crate::tokens::TokenValue::Id(n) => concat2("Class ", n.as_str()),
                _ => String::from_str("Class "),
            },
        }
    }

    /// The plain value inside, if the object is one.
    pub fn to_value(self) -> (r: Option<LoxValue>)
        ensures
            match obj_m(&self) {
                ObjM::Plain(v) => r is Some && r->Some_0@ == v,
                _ => r is None,
            },
    {
        match self {
            LoxObj::Plain(val) => Some(val),
            _ => None,
        }
    }
}

} // verus!
