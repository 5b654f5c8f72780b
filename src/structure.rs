//! The syntax tree, and its mathematical model.
//!
//! Each binary layer (equality, comparison, term, factor) is a first operand followed by
//! an ordered list of (operator, operand) pairs: a left-associative chain.

use vstd::prelude::*;
use std::rc::Rc;
use crate::errors::Position;
use crate::tokens::{TokM, Token};

verus! {

broadcast use vstd::std_specs::vec::group_vec_axioms, vstd::seq::group_seq_axioms;

pub type Program = Vec<Statement>;

pub type SubRules<A> = Vec<(Token, A)>;

#[derive(Debug)]
pub enum Statement {
    Expr(Expr),
    Print(Expr),
    If(Expr, Program),
    Let(LVal, RVal),
    WhileLoop(Expr, Program),
    Fun(Position, Rc<FunctionDefinition>),
    Return(Expr),
    Class(Rc<ClassDefinition>),
}

#[derive(Debug)]
pub struct FunctionDefinition {
    pub name: String,
    pub args: Vec<String>,
    pub body: Program,
}

#[derive(Debug)]
pub struct ClassDefinition {
    pub name: Token,
    pub fields: Vec<(LVal, RVal)>,
    pub methods: Vec<Rc<FunctionDefinition>>,
}

#[derive(Debug)]
pub struct LVal {
    pub identifier: String,
}

#[derive(Debug)]
pub struct RVal {
    pub expr: Expr,
}

#[derive(Debug)]
pub enum Expr {
    Eqlty(Eqlty),
    Call(Token, Vec<Expr>),
}

#[derive(Debug)]
pub struct Eqlty {
    pub first: Comp,
    pub rest: SubRules<Comp>,
}

#[derive(Debug)]
pub struct Comp {
    pub first: Term,
    pub rest: SubRules<Term>,
}

#[derive(Debug)]
pub struct Term {
    pub first: Factor,
    pub rest: SubRules<Factor>,
}

#[derive(Debug)]
pub struct Factor {
    pub first: Unary,
    pub rest: SubRules<Unary>,
}

#[derive(Debug)]
pub enum Unary {
    Final(Option<Token>, Token),
    Recursive(Option<Token>, Box<Expr>),
    Call(Option<Token>, Token, Vec<Box<Expr>>),
}

/// The kinds of statement, as the first token tells them apart.
#[derive(Clone, Copy, PartialEq, Eq, Debug, Structural)]
pub enum StatementKind {
    Expr,
    Print,
    If,
    Let,
    WhileLoop,
    Fun,
    Return,
    Class,
}

/// The shapes of an operand: with or without a leading operator.
#[derive(Clone, Copy, PartialEq, Eq, Debug, Structural)]
pub enum UnaryKind {
    Final(bool),
    Recursive(bool),
    Call(bool),
}

/// The model of an expression of any layer.
pub enum ExprM {
    /// A left-associative chain: a first operand, then (operator, operand) pairs.
    Chain(Box<ExprM>, Seq<(TokM, ExprM)>),
    /// An optional leading operator and a single token.
    Final(Option<TokM>, TokM),
    /// An optional leading operator and a parenthesized expression.
    Group(Option<TokM>, Box<ExprM>),
    /// An optional leading operator, the callee and the arguments.
    Call(Option<TokM>, TokM, Seq<ExprM>),
    /// A bare call form that the parser does not produce.
    Direct(TokM, Seq<ExprM>),
}

pub struct FunM {
    pub name: Seq<char>,
    pub args: Seq<Seq<char>>,
    pub body: Seq<StmtM>,
}

pub struct ClassM {
    pub name: TokM,
    pub fields: Seq<(Seq<char>, ExprM)>,
    pub methods: Seq<FunM>,
}

/// The model of a statement.
pub enum StmtM {
    Expr(ExprM),
    Print(ExprM),
    If(ExprM, Seq<StmtM>),
    Let(Seq<char>, ExprM),
    While(ExprM, Seq<StmtM>),
    Fun(Position, FunM),
    Return(ExprM),
    Class(ClassM),
}

pub open spec fn opt_tok(t: Option<Token>) -> Option<TokM> {
    match t {
        Some(t) => Some(t@),
        None => None,
    }
}

pub open spec fn expr_m(e: &Expr) -> ExprM
    decreases e,
{
    match e {
        Expr::Eqlty(q) => eqlty_m(q),
        Expr::Call(t, args) => ExprM::Direct(t@, exprs_m(args@)),
    }
}

pub open spec fn exprs_m(v: Seq<Expr>) -> Seq<ExprM>
    decreases v,
{
    if v.len() == 0 {
        Seq::empty()
    } else {
        exprs_m(v.drop_last()).push(expr_m(&v.last()))
    }
}

pub open spec fn boxed_m(v: Seq<Box<Expr>>) -> Seq<ExprM>
    decreases v,
{
    if v.len() == 0 {
        Seq::empty()
    } else {
        boxed_m(v.drop_last()).push(expr_m(&*v.last()))
    }
}

pub open spec fn eqlty_m(q: &Eqlty) -> ExprM
    decreases q,
{
    ExprM::Chain(Box::new(comp_m(&q.first)), comp_rest_m(q.rest@))
}

pub open spec fn comp_rest_m(v: Seq<(Token, Comp)>) -> Seq<(TokM, ExprM)>
    decreases v,
{
    if v.len() == 0 {
        Seq::empty()
    } else {
        comp_rest_m(v.drop_last()).push((v.last().0@, comp_m(&v.last().1)))
    }
}

pub open spec fn comp_m(c: &Comp) -> ExprM
    decreases c,
{
    ExprM::Chain(Box::new(term_m(&c.first)), term_rest_m(c.rest@))
}

pub open spec fn term_rest_m(v: Seq<(Token, Term)>) -> Seq<(TokM, ExprM)>
    decreases v,
{
    if v.len() == 0 {
        Seq::empty()
    } else {
        term_rest_m(v.drop_last()).push((v.last().0@, term_m(&v.last().1)))
    }
}

pub open spec fn term_m(t: &Term) -> ExprM
    decreases t,
{
    ExprM::Chain(Box::new(factor_m(&t.first)), factor_rest_m(t.rest@))
}

pub open spec fn factor_rest_m(v: Seq<(Token, Factor)>) -> Seq<(TokM, ExprM)>
    decreases v,
{
    if v.len() == 0 {
        Seq::empty()
    } else {
        factor_rest_m(v.drop_last()).push((v.last().0@, factor_m(&v.last().1)))
    }
}

pub open spec fn factor_m(f: &Factor) -> ExprM
    decreases f,
{
    ExprM::Chain(Box::new(unary_m(&f.first)), unary_rest_m(f.rest@))
}

pub open spec fn unary_rest_m(v: Seq<(Token, Unary)>) -> Seq<(TokM, ExprM)>
    decreases v,
{
    if v.len() == 0 {
        Seq::empty()
    } else {
        unary_rest_m(v.drop_last()).push((v.last().0@, unary_m(&v.last().1)))
    }
}

pub open spec fn unary_m(u: &Unary) -> ExprM
    decreases u,
{
    match u {
        Unary::Final(op, t) => ExprM::Final(opt_tok(*op), t@),
        Unary::Recursive(op, e) => ExprM::Group(opt_tok(*op), Box::new(expr_m(&**e))),
        Unary::Call(op, t, args) => ExprM::Call(opt_tok(*op), t@, boxed_m(args@)),
    }
}

pub open spec fn names_m(v: Seq<String>) -> Seq<Seq<char>> {
    v.map_values(|s: String| s@)
}

pub open spec fn stmt_m(s: &Statement) -> StmtM
    decreases s,
{
    match s {
        Statement::Expr(e) => StmtM::Expr(expr_m(e)),
        Statement::Print(e) => StmtM::Print(expr_m(e)),
        Statement::If(c, b) => StmtM::If(expr_m(c), stmts_m(b@)),
        Statement::Let(l, r) => StmtM::Let(l.identifier@, expr_m(&r.expr)),
        Statement::WhileLoop(c, b) => StmtM::While(expr_m(c), stmts_m(b@)),
        Statement::Fun(p, f) => StmtM::Fun(*p, fun_m(&**f)),
        Statement::Return(e) => StmtM::Return(expr_m(e)),
        Statement::Class(c) => StmtM::Class(class_m(&**c)),
    }
}

pub open spec fn class_m(c: &ClassDefinition) -> ClassM
    decreases c,
{
    ClassM { name: c.name@, fields: fields_m(c.fields@), methods: funs_m(c.methods@) }
}

pub open spec fn stmts_m(v: Seq<Statement>) -> Seq<StmtM>
    decreases v,
{
    if v.len() == 0 {
        Seq::empty()
    } else {
        stmts_m(v.drop_last()).push(stmt_m(&v.last()))
    }
}

pub open spec fn fun_m(f: &FunctionDefinition) -> FunM
    decreases f,
{
    FunM { name: f.name@, args: names_m(f.args@), body: stmts_m(f.body@) }
}

pub open spec fn funs_m(v: Seq<Rc<FunctionDefinition>>) -> Seq<FunM>
    decreases v,
{
    if v.len() == 0 {
        Seq::empty()
    } else {
        funs_m(v.drop_last()).push(fun_m(&*v.last()))
    }
}

pub open spec fn fields_m(v: Seq<(LVal, RVal)>) -> Seq<(Seq<char>, ExprM)>
    decreases v,
{
    if v.len() == 0 {
        Seq::empty()
    } else {
        fields_m(v.drop_last()).push((v.last().0.identifier@, expr_m(&v.last().1.expr)))
    }
}

} // verus!

verus! {

pub proof fn lemma_comp_rest(v: Seq<(Token, Comp)>)
    ensures
        comp_rest_m(v).len() == v.len(),
        forall|k: int| 0 <= k < v.len() ==> #[trigger] comp_rest_m(v)[k] == (v[k].0@, comp_m(&v[k].1)),
    decreases v.len(),
{
    if v.len() > 0 {
        lemma_comp_rest(v.drop_last());
    }
}

pub proof fn lemma_term_rest(v: Seq<(Token, Term)>)
    ensures
        term_rest_m(v).len() == v.len(),
        forall|k: int| 0 <= k < v.len() ==> #[trigger] term_rest_m(v)[k] == (v[k].0@, term_m(&v[k].1)),
    decreases v.len(),
{
    if v.len() > 0 {
        lemma_term_rest(v.drop_last());
    }
}

pub proof fn lemma_factor_rest(v: Seq<(Token, Factor)>)
    ensures
        factor_rest_m(v).len() == v.len(),
        forall|k: int| 0 <= k < v.len() ==> #[trigger] factor_rest_m(v)[k] == (v[k].0@, factor_m(&v[k].1)),
    decreases v.len(),
{
    if v.len() > 0 {
        lemma_factor_rest(v.drop_last());
    }
}

pub proof fn lemma_unary_rest(v: Seq<(Token, Unary)>)
    ensures
        unary_rest_m(v).len() == v.len(),
        forall|k: int| 0 <= k < v.len() ==> #[trigger] unary_rest_m(v)[k] == (v[k].0@, unary_m(&v[k].1)),
    decreases v.len(),
{
    if v.len() > 0 {
        lemma_unary_rest(v.drop_last());
    }
}

pub proof fn lemma_boxed(v: Seq<Box<Expr>>)
    ensures
        boxed_m(v).len() == v.len(),
        forall|k: int| 0 <= k < v.len() ==> #[trigger] boxed_m(v)[k] == expr_m(&*v[k]),
    decreases v.len(),
{
    if v.len() > 0 {
        lemma_boxed(v.drop_last());
    }
}

pub proof fn lemma_stmts(v: Seq<Statement>)
    ensures
        stmts_m(v).len() == v.len(),
        forall|k: int| 0 <= k < v.len() ==> #[trigger] stmts_m(v)[k] == stmt_m(&v[k]),
    decreases v.len(),
{
    if v.len() > 0 {
        lemma_stmts(v.drop_last());
    }
}

} // verus!

verus! {

/// The name of a statement's kind, as diagnostics show it.
pub open spec fn statement_kind_name(s: StmtM) -> Seq<char> {
    match s {
        StmtM::Class(_) => "ClassDef"@,
        StmtM::Print(_) => "Statement"@,
        StmtM::Expr(_) => "Expression"@,
        StmtM::If(_, _) => "IfStatement"@,
        StmtM::Let(_, _) => "LetStmt"@,
        StmtM::While(_, _) => "WhileLoop"@,
        StmtM::Fun(_, _) => "Fun"@,
        StmtM::Return(_) => "Return"@,
    }
}

impl Statement {
    pub fn kind_name(&self) -> (r: &'static str)
        ensures
            r@ == statement_kind_name(stmt_m(self)),
    {
        match self {
            Statement::Class(_) => "ClassDef",
            Statement::Print(_) => "Statement",
            Statement::Expr(_) => "Expression",
            Statement::If(_, _) => "IfStatement",
            Statement::Let(_, _) => "LetStmt",
            Statement::WhileLoop(_, _) => "WhileLoop",
            Statement::Fun(_, _) => "Fun",
            Statement::Return(_) => "Return",
        }
    }
}

} // verus!
