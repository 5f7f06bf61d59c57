//! A small imperative scripting language: a scanner, a recursive-descent
//! parser and a tree-walking evaluator over a flat global namespace.
//!
//! Numbers are fixed-point decimals (see `num`); every stage of the
//! pipeline is specified by a matching specification function and the
//! executable code is proved to compute exactly what the specification
//! says. `run` ties the stages together: `sp_run` states what any source
//! text makes the whole pipeline print and report.

use vstd::prelude::*;

pub mod ast;
pub mod interpreter;
pub mod laws;
pub mod lexer;
pub mod num;
pub mod parser;
pub mod text;
pub mod token;
pub mod value;

verus! {

use crate::lexer::{Lexer, LexError, sp_tokenize};
use crate::parser::{Parser, ParseError, sp_parse};
use crate::interpreter::{
    ExecStatus,
    Interpreter,
    OutcomeV,
    RuntimeError,
    RuntimeErrorV,
    StateV,
    sp_exec_seq,
};

/// How a whole run ended: normally, with the first error of the failing
/// stage, or with the fuel spent.
#[derive(Debug)]
pub enum RunStatus {
    Finished,
    LexFailed(LexError),
    ParseFailed(ParseError),
    RuntimeFailed(RuntimeError),
    Stopped,
}

pub enum RunStatusV {
    Finished,
    LexFailed(LexError),
    ParseFailed(ParseError),
    RuntimeFailed(RuntimeErrorV),
    Stopped,
}

impl View for RunStatus {
    type V = RunStatusV;

    open spec fn view(&self) -> RunStatusV {
        match self {
            RunStatus::Finished => RunStatusV::Finished,
            RunStatus::LexFailed(le) => RunStatusV::LexFailed(*le),
            RunStatus::ParseFailed(pe) => RunStatusV::ParseFailed(*pe),
            RunStatus::RuntimeFailed(re) => RunStatusV::RuntimeFailed(re@),
            RunStatus::Stopped => RunStatusV::Stopped,
        }
    }
}

/// What one run leaves behind: the lines printed (also by a run that then
/// failed) and how it ended.
#[derive(Debug)]
pub struct RunOutcome {
    pub output: Vec<String>,
    pub status: RunStatus,
}

/// The whole pipeline on a source text: scan, parse, execute. A scan or
/// parse error prints nothing; a runtime error keeps the lines printed
/// before it.
pub open spec fn sp_run(src: Seq<char>, fuel: nat) -> (Seq<Seq<char>>, RunStatusV) {
    match sp_tokenize(src, 0, 1) {
        Err(le) => (Seq::empty(), RunStatusV::LexFailed(le)),
        Ok(toks) => match sp_parse(toks, 0) {
            Err(pe) => (Seq::empty(), RunStatusV::ParseFailed(pe)),
            Ok(ss) => {
                let st0 = StateV { env: Map::empty(), out: Seq::empty() };
                match sp_exec_seq(st0, ss, fuel) {
                    OutcomeV::Done { st, .. } => (st.out, RunStatusV::Finished),
                    OutcomeV::Failed { st, err } => (st.out, RunStatusV::RuntimeFailed(err)),
                    OutcomeV::Stopped { st } => (st.out, RunStatusV::Stopped),
                }
            },
        },
    }
}

/// Runs a source program within the given fuel (one unit per statement
/// executed) and returns exactly what `sp_run` says it must.
pub fn run(source: String, fuel: u64) -> (r: RunOutcome)
    ensures
        sp_run(source@, fuel as nat) == (r.output.deep_view(), r.status@),
{
    let mut lexer = Lexer::new(source);
    let tokens = match lexer.tokenize() {
        Ok(ts) => ts,
        Err(le) => {
            let out: Vec<String> = Vec::new();
            proof {
                assert(out.deep_view() =~= Seq::<Seq<char>>::empty());
            }
            return RunOutcome { output: out, status: RunStatus::LexFailed(le) };
        },
    };
    let mut parser = Parser::new(tokens);
    let ast = match parser.parse() {
        Ok(ss) => ss,
        Err(pe) => {
            let out: Vec<String> = Vec::new();
            proof {
                assert(out.deep_view() =~= Seq::<Seq<char>>::empty());
            }
            return RunOutcome { output: out, status: RunStatus::ParseFailed(pe) };
        },
    };
    let mut interp = Interpreter::new();
    let status = interp.interpret(&ast, fuel);
    match status {
        ExecStatus::Done(_) => RunOutcome { output: interp.output, status: RunStatus::Finished },
        ExecStatus::Failed(e) => RunOutcome {
            output: interp.output,
            status: RunStatus::RuntimeFailed(e),
        },
        ExecStatus::Stopped => RunOutcome { output: interp.output, status: RunStatus::Stopped },
    }
}

} // verus!
