//! Bindings at run time: a stack of scopes, innermost last, never empty.

use vstd::prelude::*;
use vstd::string::*;
use crate::definitions::{obj_m, LoxObj, ObjM};
use crate::errors::{ErrBuilder, ErrType, LoxError, LoxResult, Position};
use crate::tokens::{Token, TokenValue};

verus! {

/// A scope as a sequence of (name, object) pairs with distinct names.
pub type ScopeM = Seq<(Seq<char>, ObjM)>;

/// The index of the binding of `name` at or after `i`, or -1.
pub open spec fn find_from(s: ScopeM, name: Seq<char>, i: int) -> int
    decreases s.len() - i,
{
    if i < 0 || i >= s.len() {
        -1
    } else if s[i].0 == name {
        i
    } else {
        find_from(s, name, i + 1)
    }
}

pub proof fn lemma_find_from(s: ScopeM, name: Seq<char>, i: int)
    ensures
        -1 <= find_from(s, name, i) < s.len(),
        find_from(s, name, i) >= 0 ==> s[find_from(s, name, i)].0 == name && i <= find_from(
            s,
            name,
            i,
        ),
    decreases s.len() - i,
{
    if 0 <= i < s.len() && s[i].0 != name {
        lemma_find_from(s, name, i + 1);
    }
}

pub open spec fn scope_get(s: ScopeM, name: Seq<char>) -> Option<ObjM> {
    let k = find_from(s, name, 0);
    if k >= 0 {
        Some(s[k].1)
    } else {
        None
    }
}

/// The scope with `name` bound to `o`, in place where it was bound, else added at the end.
pub open spec fn scope_bind(s: ScopeM, name: Seq<char>, o: ObjM) -> ScopeM {
    let k = find_from(s, name, 0);
    if k >= 0 {
        s.update(k, (name, o))
    } else {
        s.push((name, o))
    }
}

/// Looks `name` up from the innermost scope outwards.
pub open spec fn state_get(st: Seq<ScopeM>, name: Seq<char>) -> Option<ObjM>
    decreases st.len(),
{
    if st.len() == 0 {
        None
    } else {
        match scope_get(st.last(), name) {
            Some(o) => Some(o),
            None => state_get(st.drop_last(), name),
        }
    }
}

/// The index of the innermost scope that binds `name`, or -1.
pub open spec fn owner(st: Seq<ScopeM>, name: Seq<char>) -> int
    decreases st.len(),
{
    if st.len() == 0 {
        -1
    } else if scope_get(st.last(), name) is Some {
        st.len() - 1
    } else {
        owner(st.drop_last(), name)
    }
}

/// Assignment: rebinds `name` in the innermost scope that binds it, else binds it in
/// the innermost scope.
pub open spec fn state_bind(st: Seq<ScopeM>, name: Seq<char>, o: ObjM) -> Seq<ScopeM> {
    let k = owner(st, name);
    if k >= 0 {
        st.update(k, scope_bind(st[k], name, o))
    } else {
        st.update(st.len() - 1, scope_bind(st.last(), name, o))
    }
}

/// Declaration: binds `name` in the innermost scope.
pub open spec fn state_define(st: Seq<ScopeM>, name: Seq<char>, o: ObjM) -> Seq<ScopeM> {
    st.update(st.len() - 1, scope_bind(st.last(), name, o))
}

/// The scope that the stack starts with: it binds the built-in `mod`.
pub open spec fn global_scope() -> ScopeM {
    seq![("mod"@, ObjM::Inbuilt("mod"@))]
}

/// `e` is the error for the unbound name `n` at `pos`.
pub open spec fn not_in_scope(pos: Position, n: Seq<char>, e: LoxError) -> bool {
    &&& e.err_type == ErrType::LogicError
    &&& e.pos == pos
    &&& e.msg@ == "Variable "@ + n + " is not in scope"@
}

fn unbound(name: &String, pos: Position) -> (r: LoxResult<LoxObj>)
    ensures
        r is Err && not_in_scope(pos, name@, r->Err_0),
{
    let m = crate::text::concat3("Variable ", name.as_str(), " is not in scope");
    ErrBuilder::new().of_type(ErrType::LogicError).at(pos).with_message(m).to_result()
}

/// A mapping from names to objects.
pub struct Scope {
    pub bindings: Vec<(String, LoxObj)>,
    pub name: String,
}

pub open spec fn scope_m(s: Seq<(String, LoxObj)>) -> ScopeM {
    s.map_values(|b: (String, LoxObj)| (b.0@, obj_m(&b.1)))
}

impl Scope {
    pub open spec fn view_m(&self) -> ScopeM {
        scope_m(self.bindings@)
    }

    /// The global scope, holding the built-in `mod`.
    pub fn new(name: String) -> (r: Self)
        ensures
            r.view_m() == global_scope(),
            r.name == name,
    {
        let mut bindings: Vec<(String, LoxObj)> = Vec::new();
        bindings.push((String::from_str("mod"), LoxObj::Inbuilt(String::from_str("mod"))));
        let r = Scope { bindings, name };
        assert(r.view_m() =~= global_scope());
        r
    }

    /// A scope with no bindings.
    pub fn empty(name: String) -> (r: Self)
        ensures
            r.view_m() == Seq::<(Seq<char>, ObjM)>::empty(),
    {
        let r = Scope { bindings: Vec::new(), name };
        assert(r.view_m() =~= Seq::<(Seq<char>, ObjM)>::empty());
        r
    }

    fn find(&self, name: &String) -> (r: Option<usize>)
        ensures
            match r {
                Some(k) => k < self.bindings@.len() && find_from(self.view_m(), name@, 0) == k,
                None => find_from(self.view_m(), name@, 0) == -1,
            },
    {
        proof {
            lemma_find_from(self.view_m(), name@, 0);
        }
        let mut i: usize = 0;
        while i < self.bindings.len()
            invariant
                i <= self.bindings@.len(),
                find_from(self.view_m(), name@, 0) == find_from(self.view_m(), name@, i as int),
            decreases self.bindings.len() - i,
        {
            if self.bindings[i].0 == *name {
                return Some(i);
            }
            i += 1;
        }
        None
    }

    /// The object bound to `identifier`, or a `LogicError` at its position.
    pub fn get(&self, identifier: &Token) -> (r: LoxResult<LoxObj>)
        requires
            identifier.val is Id,
        ensures
            ({
                let n = identifier.val->Id_0@;
                match scope_get(self.view_m(), n) {
                    Some(o) => r is Ok && obj_m(&r->Ok_0) == o,
                    None => r is Err && not_in_scope(identifier.pos, n, r->Err_0),
                }
            }),
    {
        match &identifier.val {
            TokenValue::Id(name) => match self.lookup(name) {
                Some(o) => Ok(o),
                None => unbound(name, identifier.pos),
            },
            _ => unbound(&String::new(), identifier.pos),
        }
    }

    pub fn lookup(&self, name: &String) -> (r: Option<LoxObj>)
        ensures
            match scope_get(self.view_m(), name@) {
                Some(o) => r is Some && obj_m(&r->Some_0) == o,
                None => r is None,
            },
    {
        proof {
            lemma_find_from(self.view_m(), name@, 0);
        }
        match self.find(name) {
            Some(k) => {
                assert(self.view_m()[k as int] == (
                    self.bindings@[k as int].0@,
                    obj_m(&self.bindings@[k as int].1),
                ));
                let b = &self.bindings[k];
                let o = b.1.clone();
                assert(obj_m(&o) == obj_m(&b.1));
                assert(*b == self.bindings@[k as int]);
                assert(find_from(self.view_m(), name@, 0) == k as int);
                assert(scope_get(self.view_m(), name@) == Some(self.view_m()[k as int].1));
                Some(o)
            },
            None => None,
        }
    }

    pub fn bind(&mut self, name: String, obj: LoxObj)
        ensures
            final(self).view_m() == scope_bind(old(self).view_m(), name@, obj_m(&obj)),
            final(self).name == old(self).name,
    {
        let ghost n = name@;
        let ghost o = obj_m(&obj);
        proof {
            lemma_find_from(self.view_m(), name@, 0);
        }
        match self.find(&name) {
            Some(k) => {
                self.bindings.set(k, (name, obj));
                assert forall|j: int| 0 <= j < self.bindings@.len() implies self.view_m()[j]
                    == old(self).view_m().update(k as int, (n, o))[j] by {
                    if j != k {
                        assert(self.bindings@[j] == old(self).bindings@[j]);
                    }
                }
                assert(self.view_m() =~= scope_bind(old(self).view_m(), n, o));
            },
            None => {
                self.bindings.push((name, obj));
                assert(self.view_m() =~= scope_bind(old(self).view_m(), n, o));
            },
        }
    }
}

/// The stack of scopes.
pub struct State {
    pub scope_stack: Vec<Scope>,
}

pub open spec fn stack_m(v: Seq<Scope>) -> Seq<ScopeM> {
    v.map_values(|s: Scope| s.view_m())
}

impl State {
    pub open spec fn view_m(&self) -> Seq<ScopeM> {
        stack_m(self.scope_stack@)
    }

    /// A stack holding the global scope alone.
    pub fn new() -> (r: Self)
        ensures
            r.view_m() == seq![global_scope()],
    {
        let mut scope_stack: Vec<Scope> = Vec::new();
        scope_stack.push(Scope::new(String::from_str("Global scope")));
        let r = State { scope_stack };
        assert(r.view_m() =~= seq![global_scope()]);
        r
    }

    pub fn depth(&self) -> (r: usize)
        ensures
            r == self.view_m().len(),
    {
        self.scope_stack.len()
    }

    pub fn push_new_scope(&mut self)
        ensures
            final(self).view_m() == old(self).view_m().push(Seq::<(Seq<char>, ObjM)>::empty()),
    {
        self.scope_stack.push(Scope::empty(String::from_str("block")));
        assert(self.view_m() =~= old(self).view_m().push(Seq::<(Seq<char>, ObjM)>::empty()));
    }

    /// Removes the innermost scope; `None` where there is none.
    /// Removes the innermost scope; the global scope stays: `None` where it is the only one.
    pub fn pop_last_scope(&mut self) -> (r: Option<()>)
        ensures
            old(self).view_m().len() > 1 ==> r is Some && final(self).view_m() == old(
                self,
            ).view_m().drop_last(),
            old(self).view_m().len() <= 1 ==> r is None && final(self).view_m() == old(
                self,
            ).view_m(),
    {
        if self.scope_stack.len() <= 1 {
            return None;
        }
        match self.scope_stack.pop() {
            Some(_) => {
                assert(self.view_m() =~= old(self).view_m().drop_last());
                Some(())
            },
            None => None,
        }
    }

    /// Looks `name` up from the innermost scope outwards.
    /// Looks `identifier` up from the innermost scope outwards; a `LogicError` at its
    /// position where no scope binds it.
    pub fn get(&self, identifier: &Token) -> (r: LoxResult<LoxObj>)
        requires
            identifier.val is Id,
        ensures
            ({
                let n = identifier.val->Id_0@;
                match state_get(self.view_m(), n) {
                    Some(o) => r is Ok && obj_m(&r->Ok_0) == o,
                    None => r is Err && not_in_scope(identifier.pos, n, r->Err_0),
                }
            }),
    {
        match &identifier.val {
            TokenValue::Id(name) => match self.lookup(name) {
                Some(o) => Ok(o),
                None => unbound(name, identifier.pos),
            },
            _ => unbound(&String::new(), identifier.pos),
        }
    }

    /// Looks `name` up from the innermost scope outwards.
    pub fn lookup(&self, name: &String) -> (r: Option<LoxObj>)
        ensures
            match state_get(self.view_m(), name@) {
                Some(o) => r is Some && obj_m(&r->Some_0) == o,
                None => r is None,
            },
    {
        let mut i: usize = self.scope_stack.len();
        assert(self.view_m().take(i as int) =~= self.view_m());
        while i > 0
            invariant
                i <= self.scope_stack@.len(),
                state_get(self.view_m(), name@) == state_get(self.view_m().take(i as int), name@),
            decreases i,
        {
            let ghost pre = self.view_m().take(i as int);
            assert(pre.drop_last() =~= self.view_m().take(i - 1));
            match self.scope_stack[i - 1].lookup(name) {
                Some(o) => {
                    return Some(o);
                },
                None => {},
            }
            i -= 1;
        }
        None
    }

    /// Assignment: rebinds `name` in the innermost scope that binds it, else binds it in
    /// the innermost scope.
    pub fn bind(&mut self, name: String, obj: LoxObj)
        requires
            old(self).view_m().len() > 0,
        ensures
            final(self).view_m() == state_bind(old(self).view_m(), name@, obj_m(&obj)),
            final(self).view_m().len() == old(self).view_m().len(),
    {
        let ghost st = self.view_m();
        let mut i: usize = self.scope_stack.len();
        assert(st.take(i as int) =~= st);
        while i > 0
            invariant
                i <= self.scope_stack@.len(),
                self.view_m() == st,
                st == old(self).view_m(),
                st.len() > 0,
                owner(st, name@) == owner(st.take(i as int), name@),
            decreases i,
        {
            let ghost pre = st.take(i as int);
            assert(pre.drop_last() =~= st.take(i - 1));
            assert(st[i - 1] == self.scope_stack@[i - 1].view_m());
            proof {
                lemma_find_from(st[i - 1], name@, 0);
            }
            if self.scope_stack[i - 1].find(&name).is_some() {
                assert(scope_get(pre.last(), name@) is Some);
                assert(owner(st, name@) == i - 1);
                self.bind_at(i - 1, name, obj);
                return;
            }
            i -= 1;
        }
        assert(st.take(0) =~= Seq::<ScopeM>::empty());
        assert(owner(st, name@) == -1);
        let last = self.scope_stack.len() - 1;
        self.bind_at(last, name, obj);
    }

    /// Declaration: binds `name` in the innermost scope.
    pub fn define(&mut self, name: String, obj: LoxObj)
        requires
            old(self).view_m().len() > 0,
        ensures
            final(self).view_m() == state_define(old(self).view_m(), name@, obj_m(&obj)),
            final(self).view_m().len() == old(self).view_m().len(),
    {
        let last = self.scope_stack.len() - 1;
        self.bind_at(last, name, obj);
    }

    fn bind_at(&mut self, k: usize, name: String, obj: LoxObj)
        requires
            k < old(self).view_m().len(),
        ensures
            final(self).view_m() == old(self).view_m().update(
                k as int,
                scope_bind(old(self).view_m()[k as int], name@, obj_m(&obj)),
            ),
    {
        let ghost n = name@;
        let ghost o = obj_m(&obj);
        let mut scope = self.scope_stack.remove(k);
        scope.bind(name, obj);
        self.scope_stack.insert(k, scope);
        assert(self.view_m() =~= old(self).view_m().update(
            k as int,
            scope_bind(old(self).view_m()[k as int], n, o),
        ));
    }
}

} // verus!
