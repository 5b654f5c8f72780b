//! Properties that hold of the scanner, the parser and the evaluator together.

use vstd::prelude::*;
use crate::definitions::ObjM;
use crate::errors::{ErrType, Position};
use crate::grammar::{chain_rest, expr, layer, parse_tokens, unary};
use crate::interpreter::run_source;
use crate::lexical::{
    classify, digits_value, is_ascii_letter, is_digit, is_ident_char, is_ident_start,
    is_identifier_text, is_number_text, is_word_char,
};
use crate::readers::line_end;
use crate::scanner::{next_tok, scan_from, scan_text, step, word_end, Step};
use crate::semantics::{binop, bind_params, call, eval, fold, exec_stmt, run_block, scoped, with_scopes, EnvM};
use crate::state::{
    find_from, lemma_find_from, owner, scope_bind, scope_get, state_bind, state_define, state_get,
    ScopeM,
};
use crate::structure::{ExprM, StmtM};
use crate::tokens::{Punct, TokM, TokV, ValM};

verus! {

proof fn lemma_scan_from_eof(s: Seq<char>, i: nat)
    ensures
        scan_from(s, i) is Ok ==> {
            let ts = scan_from(s, i)->Ok_0;
            &&& ts.len() >= 1
            &&& ts.last().val == TokV::Punct(Punct::Eof)
            &&& forall|k: int| 0 <= k < ts.len() - 1 ==> ts[k].val != TokV::Punct(Punct::Eof)
        },
    decreases s.len() - i,
{
    match next_tok(s, i) {
        Err(_) => {},
        Ok((t, j)) => {
            if t.val != TokV::Punct(Punct::Eof) && !(j <= i || j > s.len()) {
                lemma_scan_from_eof(s, j);
                if scan_from(s, j) is Ok {
                    let rest = scan_from(s, j)->Ok_0;
                    let ts = seq![t] + rest;
                    assert forall|k: int| 0 <= k < ts.len() - 1 implies ts[k].val != TokV::Punct(
                        Punct::Eof,
                    ) by {
                        if k > 0 {
                            assert(ts[k] == rest[k - 1]);
                        }
                    }
                }
            }
        },
    }
}

/// A successful scan ends in exactly one end-of-input token: the last token is `Eof`,
/// and no other token is.
pub proof fn lemma_scan_ends_with_single_eof(s: Seq<char>)
    ensures
        scan_text(s) is Ok ==> {
            let ts = scan_text(s)->Ok_0;
            &&& ts.len() >= 1
            &&& ts.last().val == TokV::Punct(Punct::Eof)
            &&& forall|k: int| 0 <= k < ts.len() - 1 ==> ts[k].val != TokV::Punct(Punct::Eof)
        },
{
    lemma_scan_from_eof(s, 0);
}

/// Blanks and punctuation marks.
pub open spec fn is_mark_or_blank(c: char) -> bool {
    c == ' ' || c == '\t' || c == '\n' || c == '\r' || c == '(' || c == ')' || c == '{' || c == '}'
        || c == ',' || c == '.' || c == '-' || c == '+' || c == ';' || c == '*' || c == '!' || c
        == '=' || c == '<' || c == '>' || c == '/'
}

/// Characters of names: ASCII letters, `_` and `'`.
pub open spec fn is_name_char(c: char) -> bool {
    is_ascii_letter(c) || c == '_' || c == '\''
}

/// Characters of texts made of names, numbers, punctuation, blanks and comments.
pub open spec fn is_plain_char(c: char) -> bool {
    is_mark_or_blank(c) || is_name_char(c) || is_digit(c)
}

/// Index `k` starts a run of word characters.
pub open spec fn word_start(s: Seq<char>, k: int) -> bool {
    is_word_char(s[k]) && (k == 0 || !is_word_char(s[k - 1]))
}

/// Every run of word characters that starts with a digit is a numeral within `i64`.
pub open spec fn numerals_in_range(s: Seq<char>) -> bool {
    forall|k: int|
        0 <= k < s.len() && is_digit(s[k]) && #[trigger] word_start(s, k) ==> {
            let w = s.subrange(k, word_end(s, k as nat) as int);
            is_number_text(w) && digits_value(w) <= i64::MAX
        }
}

/// Reading stands at a place where no word continues from the left.
pub open spec fn at_boundary(s: Seq<char>, i: nat) -> bool {
    i == 0 || i >= s.len() || !(is_word_char(s[i - 1]) && is_word_char(s[i as int]))
}

proof fn lemma_word_end(s: Seq<char>, j: nat)
    requires
        j <= s.len(),
    ensures
        j <= word_end(s, j) <= s.len(),
        word_end(s, j) < s.len() ==> !is_word_char(s[word_end(s, j) as int]),
        forall|k: int| j <= k < word_end(s, j) ==> is_word_char(#[trigger] s[k]),
    decreases s.len() - j,
{
    if j < s.len() && is_word_char(s[j as int]) {
        lemma_word_end(s, j + 1);
    }
}

proof fn lemma_line_end_newline(s: Seq<char>, i: int)
    requires
        0 <= i <= s.len(),
    ensures
        line_end(s, i) < s.len() ==> s[line_end(s, i)] == '\n',
    decreases s.len() - i,
{
    if i < s.len() && s[i] != '\n' {
        lemma_line_end_newline(s, i + 1);
    }
}

proof fn lemma_next_tok_plain(s: Seq<char>, i: nat)
    requires
        forall|k: int| 0 <= k < s.len() ==> is_plain_char(#[trigger] s[k]),
        numerals_in_range(s),
        i <= s.len(),
        at_boundary(s, i),
    ensures
        next_tok(s, i) is Ok,
        next_tok(s, i) is Ok ==> next_tok(s, i)->Ok_0.1 <= s.len() && at_boundary(
            s,
            next_tok(s, i)->Ok_0.1,
        ) && (next_tok(s, i)->Ok_0.0.val != TokV::Punct(Punct::Eof) ==> next_tok(s, i)->Ok_0.1
            > i),
    decreases s.len() - i,
{
    if i < s.len() {
        let c = s[i as int];
        assert(is_plain_char(c));
        if is_name_char(c) || is_digit(c) {
            lemma_word_end(s, i + 1);
            let e = word_end(s, i + 1);
            let w = s.subrange(i as int, e as int);
            if is_digit(c) {
                assert(word_start(s, i as int));
                lemma_word_end(s, i);
                assert(word_end(s, i) == e);
            } else {
                assert forall|k: int| 0 <= k < w.len() implies (k == 0 ==> is_ident_start(#[trigger] w[k]))
                    && is_ident_char(w[k]) by {
                    assert(w[k] == s[i + k]);
                    assert(is_plain_char(s[i + k]));
                    if k > 0 {
                        assert(is_word_char(s[i + k]));
                    }
                }
                assert(!is_digit(w[0]));
                assert(!is_number_text(w));
                assert(is_identifier_text(w));
            }
            assert(classify(w) is Some);
        }
        match step(s, i) {
            Step::Skip(j) => {
                if c == '/' {
                    crate::readers::lemma_line_end_bounds(s, i + 2int);
                    lemma_line_end_newline(s, i + 2int);
                }
                if !(j <= i || j > s.len()) {
                    lemma_next_tok_plain(s, j);
                }
            },
            _ => {},
        }
    }
}

proof fn lemma_scan_from_plain(s: Seq<char>, i: nat)
    requires
        forall|k: int| 0 <= k < s.len() ==> is_plain_char(#[trigger] s[k]),
        numerals_in_range(s),
        i <= s.len(),
        at_boundary(s, i),
    ensures
        scan_from(s, i) is Ok,
    decreases s.len() - i,
{
    lemma_next_tok_plain(s, i);
    let (t, j) = next_tok(s, i)->Ok_0;
    if t.val != TokV::Punct(Punct::Eof) {
        lemma_scan_from_plain(s, j);
    }
}

/// Scanning never fails on a text made of names, numerals within `i64`, punctuation,
/// blanks and comments: every run of word characters is a keyword, a boolean, an
/// identifier or a numeral.
pub proof fn lemma_scan_succeeds_on_plain_text(s: Seq<char>)
    requires
        forall|k: int| 0 <= k < s.len() ==> is_plain_char(#[trigger] s[k]),
        numerals_in_range(s),
    ensures
        scan_text(s) is Ok,
{
    lemma_scan_from_plain(s, 0);
}

/// Where scanning or parsing fails, the error, and its position with it, is a function of
/// the text alone: it does not depend on the environment that the text would run in.
pub proof fn lemma_front_errors_depend_on_text_alone(env1: EnvM, env2: EnvM, src: Seq<char>)
    requires
        scan_text(src) is Err || (scan_text(src) is Ok && parse_tokens(scan_text(src)->Ok_0) is Err),
    ensures
        run_source(env1, src).1 == run_source(env2, src).1,
        run_source(env1, src).1 is Err,
{
}


proof fn lemma_owner(st: Seq<ScopeM>, x: Seq<char>)
    ensures
        -1 <= owner(st, x) < st.len(),
        state_get(st, x) is None <==> owner(st, x) == -1,
        owner(st, x) >= 0 ==> scope_get(st[owner(st, x)], x) is Some,
        forall|j: int| owner(st, x) < j < st.len() ==> scope_get(#[trigger] st[j], x) is None,
    decreases st.len(),
{
    if st.len() > 0 {
        lemma_owner(st.drop_last(), x);
        assert forall|j: int| owner(st, x) < j < st.len() implies scope_get(#[trigger] st[j], x) is None by {
            if j < st.len() - 1 {
                assert(st[j] == st.drop_last()[j]);
            }
        }
    }
}

proof fn lemma_scope_bind_get(s: ScopeM, x: Seq<char>, o: ObjM)
    ensures
        scope_get(scope_bind(s, x, o), x) == Some(o),
{
    lemma_find_from(s, x, 0);
    let t = scope_bind(s, x, o);
    lemma_find_from(t, x, 0);
    let k = find_from(s, x, 0);
    if k >= 0 {
        lemma_find_first(s, x, 0);
        lemma_find_same_prefix(s, t, x, 0, k);
    } else {
        lemma_find_absent(s, x, 0);
        lemma_find_same_prefix(s, t, x, 0, s.len() as int);
    }
}

proof fn lemma_find_first(s: ScopeM, x: Seq<char>, i: int)
    requires
        0 <= i,
    ensures
        forall|j: int| i <= j < s.len() && (find_from(s, x, i) < 0 || j < find_from(s, x, i))
            ==> #[trigger] s[j].0 != x,
    decreases s.len() - i,
{
    if i < s.len() && s[i].0 != x {
        lemma_find_first(s, x, i + 1);
    }
}

proof fn lemma_find_absent(s: ScopeM, x: Seq<char>, i: int)
    requires
        0 <= i,
    ensures
        find_from(s, x, i) < 0 ==> forall|j: int| i <= j < s.len() ==> #[trigger] s[j].0 != x,
{
    lemma_find_first(s, x, i);
}

/// Two scopes that agree on names before index `k`, where `x` is absent, and hold `x` at
/// `k` (or end there), find `x` at the same index.
proof fn lemma_find_same_prefix(s: ScopeM, t: ScopeM, x: Seq<char>, i: int, k: int)
    requires
        0 <= i <= k,
        k <= s.len(),
        k <= t.len(),
        forall|j: int| i <= j < k ==> #[trigger] s[j].0 != x && t[j].0 == s[j].0,
        k < t.len() ==> t[k].0 == x,
    ensures
        find_from(t, x, i) == (if k < t.len() { k } else { -1 }),
    decreases k - i,
{
    if i < k {
        assert(s[i].0 != x && t[i].0 == s[i].0);
        lemma_find_same_prefix(s, t, x, i + 1, k);
    }
}

proof fn lemma_state_get_at_owner(st: Seq<ScopeM>, k: int, x: Seq<char>, o: ObjM)
    requires
        0 <= k < st.len(),
        scope_get(st[k], x) == Some(o),
        forall|j: int| k < j < st.len() ==> scope_get(#[trigger] st[j], x) is None,
    ensures
        state_get(st, x) == Some(o),
    decreases st.len(),
{
    if k < st.len() - 1 {
        assert(scope_get(st[st.len() - 1], x) is None);
        let d = st.drop_last();
        assert forall|j: int| k < j < d.len() implies scope_get(#[trigger] d[j], x) is None by {
            assert(d[j] == st[j]);
        }
        lemma_state_get_at_owner(d, k, x, o);
    }
}

/// The statement `var x = <literal>`.
pub open spec fn assign_literal(x: Seq<char>, t: TokM) -> StmtM {
    StmtM::Let(x, ExprM::Final(None, t))
}

/// `if (<true literal>) { var x = <literal>; }`.
pub open spec fn if_assign(c: TokM, x: Seq<char>, t: TokM) -> StmtM {
    StmtM::If(ExprM::Final(None, c), seq![assign_literal(x, t)])
}

/// A name bound inside an `if` block that no enclosing scope binds does not outlive the
/// block: the scopes after the statement are the scopes before it.
pub proof fn lemma_block_binding_does_not_leak(env: EnvM, c: TokM, x: Seq<char>, t: TokM, fuel: nat)
    requires
        env.scopes.len() > 0,
        c.val == TokV::Val(ValM::Boolean(true)),
        t.val is Val,
        fuel >= 4,
        state_get(env.scopes, x) is None,
    ensures
        exec_stmt(env, if_assign(c, x, t), fuel).1 == Ok::<Option<ObjM>, crate::scanner::ErrM>(None),
        exec_stmt(env, if_assign(c, x, t), fuel).0 == env,
{
    let st = env.scopes;
    let e: Seq<(Seq<char>, ObjM)> = Seq::empty();
    lemma_owner(st, x);
    let inner = st.push(e);
    assert(inner.drop_last() =~= st);
    assert(scope_get(e, x) is None);
    assert(owner(inner, x) == -1);
    let o = ObjM::Plain(t.val->Val_0);
    let bound = state_bind(inner, x, o);
    assert(bound.drop_last() =~= st);
    let f1 = (fuel - 1) as nat;
    let f2 = (fuel - 2) as nat;
    let body = seq![assign_literal(x, t)];
    assert(eval(env, ExprM::Final(None, c), f1) == (env, Ok::<ObjM, crate::scanner::ErrM>(ObjM::Plain(ValM::Boolean(true)))));
    let env1 = with_scopes(env, inner);
    assert(eval(env1, ExprM::Final(None, t), f2) == (env1, Ok::<ObjM, crate::scanner::ErrM>(o)));
    let env2 = with_scopes(env1, bound);
    assert(exec_stmt(env1, assign_literal(x, t), f1) == (env2, Ok::<Option<ObjM>, crate::scanner::ErrM>(None)));
    assert(run_block(env2, body, 1, f1) == (env2, Ok::<Option<ObjM>, crate::scanner::ErrM>(None)));
    assert(run_block(env1, body, 0, f1) == (env2, Ok::<Option<ObjM>, crate::scanner::ErrM>(None)));
    assert(scoped(env, body, f1) == (with_scopes(env2, bound.drop_last()), Ok::<Option<ObjM>, crate::scanner::ErrM>(None)));
}

/// Assigning inside an `if` block to a name that an enclosing scope binds changes that
/// binding: after the block the name holds the assigned value.
pub proof fn lemma_block_assignment_reaches_outer(env: EnvM, c: TokM, x: Seq<char>, t: TokM, fuel: nat)
    requires
        env.scopes.len() > 0,
        c.val == TokV::Val(ValM::Boolean(true)),
        t.val is Val,
        fuel >= 4,
        state_get(env.scopes, x) is Some,
    ensures
        exec_stmt(env, if_assign(c, x, t), fuel).1 == Ok::<Option<ObjM>, crate::scanner::ErrM>(None),
        state_get(exec_stmt(env, if_assign(c, x, t), fuel).0.scopes, x) == Some(
            ObjM::Plain(t.val->Val_0),
        ),
        exec_stmt(env, if_assign(c, x, t), fuel).0.scopes.len() == env.scopes.len(),
{
    let st = env.scopes;
    let e: Seq<(Seq<char>, ObjM)> = Seq::empty();
    lemma_owner(st, x);
    let inner = st.push(e);
    assert(inner.drop_last() =~= st);
    assert(scope_get(e, x) is None);
    let k = owner(st, x);
    assert(inner.last() == e);
    assert(owner(inner, x) == k);
    assert(inner[k] == st[k]);
    let o = ObjM::Plain(t.val->Val_0);
    let nk = scope_bind(st[k], x, o);
    lemma_scope_bind_get(st[k], x, o);
    let bound = state_bind(inner, x, o);
    assert(bound =~= inner.update(k, nk));
    let after = bound.drop_last();
    assert(after =~= st.update(k, nk));
    assert forall|j: int| k < j < after.len() implies scope_get(#[trigger] after[j], x) is None by {
        assert(after[j] == st[j]);
    }
    lemma_state_get_at_owner(after, k, x, o);
    let f1 = (fuel - 1) as nat;
    let f2 = (fuel - 2) as nat;
    let body = seq![assign_literal(x, t)];
    assert(eval(env, ExprM::Final(None, c), f1) == (env, Ok::<ObjM, crate::scanner::ErrM>(ObjM::Plain(ValM::Boolean(true)))));
    let env1 = with_scopes(env, inner);
    assert(eval(env1, ExprM::Final(None, t), f2) == (env1, Ok::<ObjM, crate::scanner::ErrM>(o)));
    let env2 = with_scopes(env1, bound);
    assert(exec_stmt(env1, assign_literal(x, t), f1) == (env2, Ok::<Option<ObjM>, crate::scanner::ErrM>(None)));
    assert(run_block(env2, body, 1, f1) == (env2, Ok::<Option<ObjM>, crate::scanner::ErrM>(None)));
    assert(run_block(env1, body, 0, f1) == (env2, Ok::<Option<ObjM>, crate::scanner::ErrM>(None)));
    assert(scoped(env, body, f1) == (with_scopes(env2, bound.drop_last()), Ok::<Option<ObjM>, crate::scanner::ErrM>(None)));
}


/// A call runs in a fresh innermost scope: a parameter that shares its name with a global
/// shadows it, and assigning to the parameter inside the body leaves every scope of the
/// caller, the global one with it, as it was before the call.
pub proof fn lemma_call_isolates_frame(
    env: EnvM,
    d: crate::structure::FunM,
    x: Seq<char>,
    t: TokM,
    a: ObjM,
    pos: Position,
    fuel: nat,
)
    requires
        env.scopes.len() > 0,
        d.args == seq![x],
        d.body == seq![assign_literal(x, t)],
        t.val is Val,
        fuel >= 3,
    ensures
        call(env, ObjM::Fun(d), seq![a], pos, fuel).0.scopes == env.scopes,
        call(env, ObjM::Fun(d), seq![a], pos, fuel).1 == Ok::<ObjM, crate::scanner::ErrM>(
            ObjM::Plain(ValM::Integer(0)),
        ),
{
    let st = env.scopes;
    let e: Seq<(Seq<char>, ObjM)> = Seq::empty();
    let pushed = st.push(e);
    let frame = scope_bind(e, x, a);
    lemma_scope_bind_get(e, x, a);
    let s1 = state_define(pushed, x, a);
    assert(s1 =~= st.push(frame));
    assert(bind_params(s1, d.args, seq![a], 1) == s1);
    assert(bind_params(pushed, d.args, seq![a], 0) == s1);
    assert(s1.last() == frame);
    assert(owner(s1, x) == st.len());
    let o = ObjM::Plain(t.val->Val_0);
    let s2 = state_bind(s1, x, o);
    assert(s2 =~= st.push(scope_bind(frame, x, o)));
    assert(s2.drop_last() =~= st);
    let f1 = (fuel - 1) as nat;
    let f2 = (fuel - 2) as nat;
    let env1 = with_scopes(env, s1);
    assert(eval(env1, ExprM::Final(None, t), (f1 - 1) as nat) == (env1, Ok::<ObjM, crate::scanner::ErrM>(o)));
    let env2 = with_scopes(env1, s2);
    assert(exec_stmt(env1, assign_literal(x, t), f1) == (env2, Ok::<Option<ObjM>, crate::scanner::ErrM>(None)));
    assert(run_block(env2, d.body, 1, f1) == (env2, Ok::<Option<ObjM>, crate::scanner::ErrM>(None)));
    assert(run_block(env1, d.body, 0, f1) == (env2, Ok::<Option<ObjM>, crate::scanner::ErrM>(None)));
}


pub open spec fn int_tok(n: i64, pos: Position) -> TokM {
    TokM { val: TokV::Val(ValM::Integer(n)), pos }
}

pub open spec fn mark(p: Punct, pos: Position) -> TokM {
    TokM { val: TokV::Punct(p), pos }
}

pub open spec fn lit(n: i64, pos: Position) -> ExprM {
    ExprM::Final(None, int_tok(n, pos))
}

pub open spec fn wrap(e: ExprM) -> ExprM {
    ExprM::Chain(Box::new(e), Seq::empty())
}

proof fn lemma_eval_wrap(env: EnvM, e: ExprM, fuel: nat)
    requires
        fuel >= 1,
    ensures
        eval(env, wrap(e), fuel) == eval(env, e, (fuel - 1) as nat),
{
    let (env1, r) = eval(env, e, (fuel - 1) as nat);
    match r {
        Ok(a) => {
            assert(fold(env1, a, Seq::empty(), 0, (fuel - 1) as nat) == (env1, Ok::<ObjM, crate::scanner::ErrM>(a)));
        },
        Err(_) => {},
    }
}

proof fn lemma_eval_lit(env: EnvM, n: i64, pos: Position, fuel: nat)
    requires
        fuel >= 1,
    ensures
        eval(env, lit(n, pos), fuel) == (env, Ok::<ObjM, crate::scanner::ErrM>(ObjM::Plain(ValM::Integer(n)))),
{
}

/// Evaluates `first op second` where both sides are chains that evaluate to integers.
proof fn lemma_eval_pair(env: EnvM, first: ExprM, op: TokM, second: ExprM, x: i64, y: i64, fuel: nat)
    requires
        fuel >= 1,
        eval(env, first, (fuel - 1) as nat) == (env, Ok::<ObjM, crate::scanner::ErrM>(ObjM::Plain(ValM::Integer(x)))),
        eval(env, second, (fuel - 1) as nat) == (env, Ok::<ObjM, crate::scanner::ErrM>(ObjM::Plain(ValM::Integer(y)))),
    ensures
        eval(env, ExprM::Chain(Box::new(first), seq![(op, second)]), fuel) == (
            env,
            binop(op, ObjM::Plain(ValM::Integer(x)), ObjM::Plain(ValM::Integer(y))),
        ),
{
    let f = (fuel - 1) as nat;
    let rest = seq![(op, second)];
    let a = ObjM::Plain(ValM::Integer(x));
    let b = ObjM::Plain(ValM::Integer(y));
    match binop(op, a, b) {
        Ok(v) => {
            assert(fold(env, v, rest, 1, f) == (env, Ok::<ObjM, crate::scanner::ErrM>(v)));
        },
        Err(_) => {},
    }
    assert(fold(env, a, rest, 0, f) == (env, binop(op, a, b)));
}


/// `a + b * c` reads as `a + (b * c)`: parsing the tokens takes them all up to the end, and
/// the expression evaluates to `a + b * c` wherever that sum stays within `i64`.
pub proof fn lemma_product_binds_tighter_than_sum(
    env: EnvM,
    a: i64,
    b: i64,
    c: i64,
    p: Seq<Position>,
    fuel: nat,
)
    requires
        p.len() == 6,
        fuel >= 5,
        i64::MIN <= b * c <= i64::MAX,
        i64::MIN <= a + b * c <= i64::MAX,
    ensures
        ({
            let ts = seq![
                int_tok(a, p[0]),
                mark(Punct::Plus, p[1]),
                int_tok(b, p[2]),
                mark(Punct::Star, p[3]),
                int_tok(c, p[4]),
                mark(Punct::Eof, p[5]),
            ];
            &&& expr(ts, 0) is Ok
            &&& expr(ts, 0)->Ok_0.1 == 5
            &&& eval(env, expr(ts, 0)->Ok_0.0, fuel) == (env, Ok::<ObjM, crate::scanner::ErrM>(
                ObjM::Plain(ValM::Integer((a + b * c) as i64)),
            ))
        }),
{
    let ts = seq![
        int_tok(a, p[0]),
        mark(Punct::Plus, p[1]),
        int_tok(b, p[2]),
        mark(Punct::Star, p[3]),
        int_tok(c, p[4]),
        mark(Punct::Eof, p[5]),
    ];
    let f0 = lit(a, p[0]);
    let f2 = lit(b, p[2]);
    let f4 = lit(c, p[4]);
    let none: Seq<(TokM, ExprM)> = Seq::empty();
    assert(unary(ts, 0) == Ok::<(ExprM, nat), crate::scanner::ErrM>((f0, 1)));
    assert(chain_rest(ts, 1, 3) == Ok::<(Seq<(TokM, ExprM)>, nat), crate::scanner::ErrM>((none, 1)));
    assert(layer(ts, 0, 3) == Ok::<(ExprM, nat), crate::scanner::ErrM>((wrap(f0), 1)));
    assert(unary(ts, 2) == Ok::<(ExprM, nat), crate::scanner::ErrM>((f2, 3)));
    assert(unary(ts, 4) == Ok::<(ExprM, nat), crate::scanner::ErrM>((f4, 5)));
    assert(chain_rest(ts, 5, 3) == Ok::<(Seq<(TokM, ExprM)>, nat), crate::scanner::ErrM>((none, 5)));
    assert(chain_rest(ts, 3, 3) == Ok::<(Seq<(TokM, ExprM)>, nat), crate::scanner::ErrM>((seq![(ts[3], f4)] + none, 5)));
    assert(seq![(ts[3], f4)] + none =~= seq![(ts[3], f4)]);
    let t = ExprM::Chain(Box::new(f2), seq![(ts[3], f4)]);
    assert(layer(ts, 2, 3) == Ok::<(ExprM, nat), crate::scanner::ErrM>((t, 5)));
    assert(chain_rest(ts, 5, 2) == Ok::<(Seq<(TokM, ExprM)>, nat), crate::scanner::ErrM>((none, 5)));
    assert(seq![(ts[1], t)] + none =~= seq![(ts[1], t)]);
    assert(chain_rest(ts, 1, 2) == Ok::<(Seq<(TokM, ExprM)>, nat), crate::scanner::ErrM>((seq![(ts[1], t)], 5)));
    let sum = ExprM::Chain(Box::new(wrap(f0)), seq![(ts[1], t)]);
    assert(layer(ts, 0, 2) == Ok::<(ExprM, nat), crate::scanner::ErrM>((sum, 5)));
    assert(chain_rest(ts, 5, 1) == Ok::<(Seq<(TokM, ExprM)>, nat), crate::scanner::ErrM>((none, 5)));
    assert(layer(ts, 0, 1) == Ok::<(ExprM, nat), crate::scanner::ErrM>((wrap(sum), 5)));
    assert(chain_rest(ts, 5, 0) == Ok::<(Seq<(TokM, ExprM)>, nat), crate::scanner::ErrM>((none, 5)));
    assert(layer(ts, 0, 0) == Ok::<(ExprM, nat), crate::scanner::ErrM>((wrap(wrap(sum)), 5)));
    assert(expr(ts, 0) == Ok::<(ExprM, nat), crate::scanner::ErrM>((wrap(wrap(sum)), 5)));

    lemma_eval_wrap(env, wrap(sum), fuel);
    lemma_eval_wrap(env, sum, (fuel - 1) as nat);
    let g = (fuel - 2) as nat;
    lemma_eval_wrap(env, f0, (g - 1) as nat);
    lemma_eval_lit(env, a, p[0], (g - 2) as nat);
    lemma_eval_lit(env, b, p[2], (g - 2) as nat);
    lemma_eval_lit(env, c, p[4], (g - 2) as nat);
    lemma_eval_pair(env, f2, ts[3], f4, b, c, (g - 1) as nat);
    assert(b.checked_mul(c) == Some((b * c) as i64));
    lemma_eval_pair(env, wrap(f0), ts[1], t, a, (b * c) as i64, g);
    assert(a.checked_add((b * c) as i64) == Some((a + b * c) as i64));
}

/// `a - b - c` reads as `(a - b) - c`: operators of one layer group to the left.
pub proof fn lemma_difference_groups_left(
    env: EnvM,
    a: i64,
    b: i64,
    c: i64,
    p: Seq<Position>,
    fuel: nat,
)
    requires
        p.len() == 6,
        fuel >= 5,
        i64::MIN <= a - b <= i64::MAX,
        i64::MIN <= a - b - c <= i64::MAX,
    ensures
        ({
            let ts = seq![
                int_tok(a, p[0]),
                mark(Punct::Minus, p[1]),
                int_tok(b, p[2]),
                mark(Punct::Minus, p[3]),
                int_tok(c, p[4]),
                mark(Punct::Eof, p[5]),
            ];
            &&& expr(ts, 0) is Ok
            &&& expr(ts, 0)->Ok_0.1 == 5
            &&& eval(env, expr(ts, 0)->Ok_0.0, fuel) == (env, Ok::<ObjM, crate::scanner::ErrM>(
                ObjM::Plain(ValM::Integer(((a - b) - c) as i64)),
            ))
        }),
{
    let ts = seq![
        int_tok(a, p[0]),
        mark(Punct::Minus, p[1]),
        int_tok(b, p[2]),
        mark(Punct::Minus, p[3]),
        int_tok(c, p[4]),
        mark(Punct::Eof, p[5]),
    ];
    let f0 = lit(a, p[0]);
    let f2 = lit(b, p[2]);
    let f4 = lit(c, p[4]);
    let none: Seq<(TokM, ExprM)> = Seq::empty();
    assert(unary(ts, 0) == Ok::<(ExprM, nat), crate::scanner::ErrM>((f0, 1)));
    assert(chain_rest(ts, 1, 3) == Ok::<(Seq<(TokM, ExprM)>, nat), crate::scanner::ErrM>((none, 1)));
    assert(layer(ts, 0, 3) == Ok::<(ExprM, nat), crate::scanner::ErrM>((wrap(f0), 1)));
    assert(unary(ts, 2) == Ok::<(ExprM, nat), crate::scanner::ErrM>((f2, 3)));
    assert(chain_rest(ts, 3, 3) == Ok::<(Seq<(TokM, ExprM)>, nat), crate::scanner::ErrM>((none, 3)));
    assert(layer(ts, 2, 3) == Ok::<(ExprM, nat), crate::scanner::ErrM>((wrap(f2), 3)));
    assert(unary(ts, 4) == Ok::<(ExprM, nat), crate::scanner::ErrM>((f4, 5)));
    assert(chain_rest(ts, 5, 3) == Ok::<(Seq<(TokM, ExprM)>, nat), crate::scanner::ErrM>((none, 5)));
    assert(layer(ts, 4, 3) == Ok::<(ExprM, nat), crate::scanner::ErrM>((wrap(f4), 5)));
    assert(chain_rest(ts, 5, 2) == Ok::<(Seq<(TokM, ExprM)>, nat), crate::scanner::ErrM>((none, 5)));
    assert(seq![(ts[3], wrap(f4))] + none =~= seq![(ts[3], wrap(f4))]);
    assert(chain_rest(ts, 3, 2) == Ok::<(Seq<(TokM, ExprM)>, nat), crate::scanner::ErrM>((seq![(ts[3], wrap(f4))], 5)));
    let rest = seq![(ts[1], wrap(f2)), (ts[3], wrap(f4))];
    assert(seq![(ts[1], wrap(f2))] + seq![(ts[3], wrap(f4))] =~= rest);
    assert(chain_rest(ts, 1, 2) == Ok::<(Seq<(TokM, ExprM)>, nat), crate::scanner::ErrM>((rest, 5)));
    let diff = ExprM::Chain(Box::new(wrap(f0)), rest);
    assert(layer(ts, 0, 2) == Ok::<(ExprM, nat), crate::scanner::ErrM>((diff, 5)));
    assert(chain_rest(ts, 5, 1) == Ok::<(Seq<(TokM, ExprM)>, nat), crate::scanner::ErrM>((none, 5)));
    assert(layer(ts, 0, 1) == Ok::<(ExprM, nat), crate::scanner::ErrM>((wrap(diff), 5)));
    assert(chain_rest(ts, 5, 0) == Ok::<(Seq<(TokM, ExprM)>, nat), crate::scanner::ErrM>((none, 5)));
    assert(layer(ts, 0, 0) == Ok::<(ExprM, nat), crate::scanner::ErrM>((wrap(wrap(diff)), 5)));
    assert(expr(ts, 0) == Ok::<(ExprM, nat), crate::scanner::ErrM>((wrap(wrap(diff)), 5)));

    lemma_eval_wrap(env, wrap(diff), fuel);
    lemma_eval_wrap(env, diff, (fuel - 1) as nat);
    let g = (fuel - 2) as nat;
    let h = (g - 1) as nat;
    lemma_eval_wrap(env, f0, h);
    lemma_eval_wrap(env, f2, h);
    lemma_eval_wrap(env, f4, h);
    lemma_eval_lit(env, a, p[0], (h - 1) as nat);
    lemma_eval_lit(env, b, p[2], (h - 1) as nat);
    lemma_eval_lit(env, c, p[4], (h - 1) as nat);
    let ab = ObjM::Plain(ValM::Integer((a - b) as i64));
    let abc = ObjM::Plain(ValM::Integer(((a - b) - c) as i64));
    assert(a.checked_sub(b) == Some((a - b) as i64));
    assert(((a - b) as i64).checked_sub(c) == Some(((a - b) - c) as i64));
    assert(fold(env, abc, rest, 2, h) == (env, Ok::<ObjM, crate::scanner::ErrM>(abc)));
    assert(fold(env, ab, rest, 1, h) == (env, Ok::<ObjM, crate::scanner::ErrM>(abc)));
    assert(fold(env, ObjM::Plain(ValM::Integer(a)), rest, 0, h) == (env, Ok::<ObjM, crate::scanner::ErrM>(abc)));
}


/// `(a + b) * c` reads as the product of the parenthesized sum and `c`: parentheses change
/// the grouping, and the expression evaluates to `(a + b) * c` wherever that stays in `i64`.
pub proof fn lemma_parentheses_group_first(
    env: EnvM,
    a: i64,
    b: i64,
    c: i64,
    p: Seq<Position>,
    fuel: nat,
)
    requires
        p.len() == 8,
        fuel >= 10,
        i64::MIN <= a + b <= i64::MAX,
        i64::MIN <= (a + b) * c <= i64::MAX,
    ensures
        ({
            let ts = seq![
                mark(Punct::LeftParen, p[0]),
                int_tok(a, p[1]),
                mark(Punct::Plus, p[2]),
                int_tok(b, p[3]),
                mark(Punct::RightParen, p[4]),
                mark(Punct::Star, p[5]),
                int_tok(c, p[6]),
                mark(Punct::Eof, p[7]),
            ];
            &&& expr(ts, 0) is Ok
            &&& expr(ts, 0)->Ok_0.1 == 7
            &&& eval(env, expr(ts, 0)->Ok_0.0, fuel) == (env, Ok::<ObjM, crate::scanner::ErrM>(
                ObjM::Plain(ValM::Integer(((a + b) * c) as i64)),
            ))
        }),
{
    let ts = seq![
        mark(Punct::LeftParen, p[0]),
        int_tok(a, p[1]),
        mark(Punct::Plus, p[2]),
        int_tok(b, p[3]),
        mark(Punct::RightParen, p[4]),
        mark(Punct::Star, p[5]),
        int_tok(c, p[6]),
        mark(Punct::Eof, p[7]),
    ];
    let fa = lit(a, p[1]);
    let fb = lit(b, p[3]);
    let fc = lit(c, p[6]);
    let none: Seq<(TokM, ExprM)> = Seq::empty();
    assert(unary(ts, 1) == Ok::<(ExprM, nat), crate::scanner::ErrM>((fa, 2)));
    assert(chain_rest(ts, 2, 3) == Ok::<(Seq<(TokM, ExprM)>, nat), crate::scanner::ErrM>((none, 2)));
    assert(layer(ts, 1, 3) == Ok::<(ExprM, nat), crate::scanner::ErrM>((wrap(fa), 2)));
    assert(unary(ts, 3) == Ok::<(ExprM, nat), crate::scanner::ErrM>((fb, 4)));
    assert(chain_rest(ts, 4, 3) == Ok::<(Seq<(TokM, ExprM)>, nat), crate::scanner::ErrM>((none, 4)));
    assert(layer(ts, 3, 3) == Ok::<(ExprM, nat), crate::scanner::ErrM>((wrap(fb), 4)));
    assert(chain_rest(ts, 4, 2) == Ok::<(Seq<(TokM, ExprM)>, nat), crate::scanner::ErrM>((none, 4)));
    assert(seq![(ts[2], wrap(fb))] + none =~= seq![(ts[2], wrap(fb))]);
    assert(chain_rest(ts, 2, 2) == Ok::<(Seq<(TokM, ExprM)>, nat), crate::scanner::ErrM>((seq![(ts[2], wrap(fb))], 4)));
    let sum = ExprM::Chain(Box::new(wrap(fa)), seq![(ts[2], wrap(fb))]);
    assert(layer(ts, 1, 2) == Ok::<(ExprM, nat), crate::scanner::ErrM>((sum, 4)));
    assert(chain_rest(ts, 4, 1) == Ok::<(Seq<(TokM, ExprM)>, nat), crate::scanner::ErrM>((none, 4)));
    assert(layer(ts, 1, 1) == Ok::<(ExprM, nat), crate::scanner::ErrM>((wrap(sum), 4)));
    assert(chain_rest(ts, 4, 0) == Ok::<(Seq<(TokM, ExprM)>, nat), crate::scanner::ErrM>((none, 4)));
    assert(layer(ts, 1, 0) == Ok::<(ExprM, nat), crate::scanner::ErrM>((wrap(wrap(sum)), 4)));
    assert(expr(ts, 1) == Ok::<(ExprM, nat), crate::scanner::ErrM>((wrap(wrap(sum)), 4)));
    let grp = ExprM::Group(None, Box::new(wrap(wrap(sum))));
    assert(unary(ts, 0) == Ok::<(ExprM, nat), crate::scanner::ErrM>((grp, 5)));
    assert(unary(ts, 6) == Ok::<(ExprM, nat), crate::scanner::ErrM>((fc, 7)));
    assert(chain_rest(ts, 7, 3) == Ok::<(Seq<(TokM, ExprM)>, nat), crate::scanner::ErrM>((none, 7)));
    assert(seq![(ts[5], fc)] + none =~= seq![(ts[5], fc)]);
    assert(chain_rest(ts, 5, 3) == Ok::<(Seq<(TokM, ExprM)>, nat), crate::scanner::ErrM>((seq![(ts[5], fc)], 7)));
    let prod = ExprM::Chain(Box::new(grp), seq![(ts[5], fc)]);
    assert(layer(ts, 0, 3) == Ok::<(ExprM, nat), crate::scanner::ErrM>((prod, 7)));
    assert(chain_rest(ts, 7, 2) == Ok::<(Seq<(TokM, ExprM)>, nat), crate::scanner::ErrM>((none, 7)));
    assert(layer(ts, 0, 2) == Ok::<(ExprM, nat), crate::scanner::ErrM>((wrap(prod), 7)));
    assert(chain_rest(ts, 7, 1) == Ok::<(Seq<(TokM, ExprM)>, nat), crate::scanner::ErrM>((none, 7)));
    assert(layer(ts, 0, 1) == Ok::<(ExprM, nat), crate::scanner::ErrM>((wrap(wrap(prod)), 7)));
    assert(chain_rest(ts, 7, 0) == Ok::<(Seq<(TokM, ExprM)>, nat), crate::scanner::ErrM>((none, 7)));
    assert(layer(ts, 0, 0) == Ok::<(ExprM, nat), crate::scanner::ErrM>((wrap(wrap(wrap(prod))), 7)));
    assert(expr(ts, 0) == Ok::<(ExprM, nat), crate::scanner::ErrM>((wrap(wrap(wrap(prod))), 7)));

    lemma_eval_wrap(env, wrap(wrap(prod)), fuel);
    lemma_eval_wrap(env, wrap(prod), (fuel - 1) as nat);
    lemma_eval_wrap(env, prod, (fuel - 2) as nat);
    let g = (fuel - 3) as nat;
    let h = (g - 1) as nat;
    lemma_eval_wrap(env, wrap(sum), (h - 1) as nat);
    lemma_eval_wrap(env, sum, (h - 2) as nat);
    let k = (h - 3) as nat;
    lemma_eval_wrap(env, fa, (k - 1) as nat);
    lemma_eval_wrap(env, fb, (k - 1) as nat);
    lemma_eval_lit(env, a, p[1], (k - 2) as nat);
    lemma_eval_lit(env, b, p[3], (k - 2) as nat);
    lemma_eval_lit(env, c, p[6], h);
    lemma_eval_pair(env, wrap(fa), ts[2], wrap(fb), a, b, k);
    assert(a.checked_add(b) == Some((a + b) as i64));
    let s_val = ObjM::Plain(ValM::Integer((a + b) as i64));
    assert(eval(env, wrap(wrap(sum)), (h - 1) as nat) == (env, Ok::<ObjM, crate::scanner::ErrM>(s_val)));
    assert(eval(env, grp, h) == (env, Ok::<ObjM, crate::scanner::ErrM>(s_val)));
    lemma_eval_pair(env, grp, ts[5], fc, (a + b) as i64, c, g);
    assert(((a + b) as i64).checked_mul(c) == Some(((a + b) * c) as i64));
}

} // verus!
