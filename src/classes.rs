//! Classes store their fields and methods; a method is looked up by name.

use vstd::prelude::*;
use std::rc::Rc;
use crate::structure::{class_m, fun_m, funs_m, ClassDefinition, FunM, FunctionDefinition};

verus! {

/// The index of the first method named `name` at or after `i`, or -1.
pub open spec fn method_index(ms: Seq<FunM>, name: Seq<char>, i: int) -> int
    decreases ms.len() - i,
{
    if i < 0 || i >= ms.len() {
        -1
    } else if ms[i].name == name {
        i
    } else {
        method_index(ms, name, i + 1)
    }
}

pub proof fn lemma_funs(v: Seq<Rc<FunctionDefinition>>)
    ensures
        funs_m(v).len() == v.len(),
        forall|k: int| 0 <= k < v.len() ==> #[trigger] funs_m(v)[k] == fun_m(&*v[k]),
    decreases v.len(),
{
    if v.len() > 0 {
        lemma_funs(v.drop_last());
    }
}

impl ClassDefinition {
    /// The first method named `name`, if the class defines one.
    pub fn method(&self, name: &String) -> (r: Option<Rc<FunctionDefinition>>)
        ensures
            ({
                let k = method_index(class_m(self).methods, name@, 0);
                match r {
                    Some(f) => k >= 0 && fun_m(&*f) == class_m(self).methods[k],
                    None => k == -1,
                }
            }),
    {
        proof {
            lemma_funs(self.methods@);
        }
        let ghost ms = class_m(self).methods;
        let mut i: usize = 0;
        while i < self.methods.len()
            invariant
                i <= self.methods@.len(),
                ms == class_m(self).methods,
                ms == funs_m(self.methods@),
                ms.len() == self.methods@.len(),
                forall|k: int| 0 <= k < self.methods@.len() ==> #[trigger] ms[k] == fun_m(
                    &*self.methods@[k],
                ),
                method_index(ms, name@, 0) == method_index(ms, name@, i as int),
            decreases self.methods.len() - i,
        {
            if self.methods[i].name == *name {
                return Some(Rc::clone(&self.methods[i]));
            }
            i += 1;
        }
        None
    }

    /// How many fields the class stores.
    pub fn field_count(&self) -> (r: usize)
        ensures
            r == class_m(self).fields.len(),
    {
        proof {
            lemma_fields(self.fields@);
        }
        self.fields.len()
    }
}

pub proof fn lemma_fields(v: Seq<(crate::structure::LVal, crate::structure::RVal)>)
    ensures
        crate::structure::fields_m(v).len() == v.len(),
    decreases v.len(),
{
    if v.len() > 0 {
        lemma_fields(v.drop_last());
    }
}

} // verus!
