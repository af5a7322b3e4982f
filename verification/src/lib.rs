use vstd::prelude::*;
use vstd::string::StringSliceAdditionalSpecFns;

pub mod ast;
pub mod errors;
pub mod eval;
pub mod grammar;
pub mod ini;
pub mod lexer;
pub mod parser;
pub mod render;
pub mod semantics;
pub mod span;
pub mod store;
pub mod tokens;
pub mod value;

pub use ast::{AssignStmt, Block, ExprOp, Expression, Factor, Stmt, SyntaxTree, Term, TermOp, WhileStmt};
pub use ast::{AssignStmtV, BlockV, ExpressionV, FactorV, StmtV, TermV, WhileStmtV};
pub use errors::{InterpreterError, RuntimeError, SyntaxError};
pub use eval::{eval_assign, eval_expression, eval_factor, eval_statements, eval_stmt, eval_term, eval_while, evaluate, FUEL};
pub use ini::{parse_to_map, ConfigError, ConfigMap};
pub use parser::parse;
pub use render::render_val;
pub use semantics::{lemma_block_fuel_mono, lemma_eval_deterministic, lemma_loop_free_deterministic, lemma_stmt_fuel_mono};
pub use span::Span;
pub use store::Store;
pub use tokens::{Tok, TokKind, Token};
pub use value::Val;

verus! {

/// What `run` yields for given source bytes: a parse failure is reported as
/// a syntax error before any store exists; otherwise the tree is evaluated
/// from a fresh empty store at the evaluator's fuel bound.
pub open spec fn run_post(src: Seq<u8>, r: Result<Store, InterpreterError>) -> bool {
    match r {
        Ok(st) => st.wf() && (grammar::spec_parse(src) matches Ok(b) && semantics::eval_block_spec(
            b,
            Map::<Seq<u8>, Val>::empty(),
            FUEL as nat,
        ) == Ok::<semantics::StoreV, errors::RuntimeErrorV>(st@)),
        Err(InterpreterError::Syntax(e)) => grammar::spec_parse(src) == Err::<
            BlockV,
            errors::SyntaxErrorV,
        >(e@),
        Err(InterpreterError::Runtime(e)) => grammar::spec_parse(src) matches Ok(b)
            && semantics::eval_block_spec(b, Map::<Seq<u8>, Val>::empty(), FUEL as nat) == Err::<
            semantics::StoreV,
            errors::RuntimeErrorV,
        >(e@),
    }
}

/// Parses and evaluates a whole program: the final variable store, or the
/// first syntax or runtime error, kept apart so that a caller can never
/// mistake one kind for the other.
pub fn run(source: &str) -> (r: Result<Store, InterpreterError>)
    requires
        source.spec_bytes().len() < usize::MAX,
    ensures
        run_post(source.spec_bytes(), r),
{
    let tree = match parse(source) {
        Ok(t) => t,
        Err(e) => {
            return Err(InterpreterError::Syntax(e));
        },
    };
    match evaluate(&tree) {
        Ok(st) => Ok(st),
        Err(e) => Err(InterpreterError::Runtime(e)),
    }
}

} // verus!

