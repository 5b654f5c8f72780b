//! The whole pipeline: scan, parse, then execute in an environment that persists from one
//! run to the next.

use vstd::prelude::*;
use vstd::string::*;
use crate::definitions::ObjM;
use crate::errors::{ErrBuilder, ErrType, LoxError, LoxResult, Position};
use crate::executing::{out_m, Executor, MAX_FUEL};
use crate::grammar::parse_tokens;
use crate::parser::Parser;
use crate::scanner::{scan_text, tokens_view, ErrM, Scanner};
use crate::semantics::{run_block, EnvM, Ev};

verus! {

/// What running a source text does: scanning, parsing and execution, each stage run only
/// where the one before succeeded.
pub open spec fn run_source(env: EnvM, src: Seq<char>) -> Ev<Option<ObjM>> {
    match scan_text(src) {
        Err(e) => (env, Err(e)),
        Ok(ts) => if ts.len() + 4 > usize::MAX {
            (env, Err((ErrType::InterpreterError, Position { line: 0, line_pos: 0 })))
        } else {
            match parse_tokens(ts) {
                Err(e) => (env, Err(e)),
                Ok(p) => run_block(env, p, 0, MAX_FUEL as nat),
            }
        },
    }
}

pub struct LoxInterpreter {
    pub executor: Executor,
}

impl LoxInterpreter {
    pub open spec fn env(&self) -> EnvM {
        self.executor.env()
    }

    pub open spec fn wf(&self) -> bool {
        self.executor.depth() > 0
    }

    pub fn new() -> (r: Self)
        ensures
            r.wf(),
            r.env() == (EnvM { scopes: seq![crate::state::global_scope()], out: Seq::empty() }),
    {
        LoxInterpreter { executor: Executor::new() }
    }

    /// Scans, parses and executes `source`; on success the answer is `Ok!`.
    pub fn run(&mut self, source: String) -> (r: LoxResult<String>)
        requires
            old(self).wf(),
        ensures
            final(self).wf(),
            ({
                let m = run_source(old(self).env(), source@);
                &&& m.0 == final(self).env()
                &&& match r {
                    Ok(s) => m.1 is Ok && s@ == "Ok!"@,
                    Err(e) => m.1 is Err && (e.err_type, e.pos) == m.1->Err_0,
                }
            }),
    {
        let scanner = Scanner::new(source);
        let scanned = match scanner.scan() {
            Ok(out) => out,
            Err(e) => return Err(e),
        };
        if scanned.tokens.len() > usize::MAX - 4 {
            return ErrBuilder::new().of_type(ErrType::InterpreterError).without_pos().with_message(
                String::from_str("The program holds too many tokens."),
            ).to_result();
        }
        let parser = Parser::new(scanned);
        let program = match parser.parse() {
            Ok(p) => p,
            Err(e) => return Err(e),
        };
        match self.executor.execute(&program) {
            Ok(_) => Ok(String::from_str("Ok!")),
            Err(e) => Err(e),
        }
    }

    /// Hands out the lines printed so far, and forgets them.
    pub fn take_output(&mut self) -> (r: Vec<String>)
        ensures
            out_m(r@) == old(self).env().out,
            final(self).env() == (EnvM { scopes: old(self).env().scopes, out: Seq::empty() }),
            final(self).wf() == old(self).wf(),
    {
        let mut out: Vec<String> = Vec::new();
        std::mem::swap(&mut out, &mut self.executor.output);
        assert(out_m(self.executor.output@) =~= Seq::<Seq<char>>::empty());
        out
    }
}

} // verus!
