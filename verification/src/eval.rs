use vstd::prelude::*;
use crate::ast::{
    factor_span, size_block, size_stmt, view_assign, view_block, view_expression, view_factor,
    view_stmt, view_term, view_tree, view_while, AssignStmt, Block, ExprOp, Expression, Factor,
    Stmt, StmtV, SyntaxTree, Term, TermOp, WhileStmt,
};
use crate::errors::{RuntimeError, RuntimeErrorV};
use crate::semantics::{
    abs_int, eval_block_spec, eval_expression_spec, eval_factor_spec, eval_stmt_spec,
    eval_term_spec, trunc_div, StoreV,
};
use crate::span::Span;
use crate::store::Store;
use crate::value::Val;

verus! {

/// How many repetitions each `while` statement may run: one fuel unit pays
/// for one iteration, and a loop still running at zero reports
/// `IterationLimit`.  The bound is far beyond what any run could complete.
pub const FUEL: u64 = u64::MAX;

/// The mathematical image of an exec evaluation result.
pub open spec fn res_view(r: Result<Val, RuntimeError>) -> Result<Val, RuntimeErrorV> {
    match r {
        Ok(v) => Ok(v),
        Err(e) => Err(e@),
    }
}

/// The span carried by a factor.
pub fn factor_span_of(f: &Factor) -> (r: Span)
    ensures
        r == factor_span(view_factor(*f)),
{
    match f {
        Factor::Paren { span, .. } => *span,
        Factor::Number { span, .. } => *span,
        Factor::BooleanLit { span, .. } => *span,
        Factor::Variable { span, .. } => *span,
    }
}

/// Truncating 64-bit division, wrapping on the one overflowing case
/// `i64::MIN / -1`.
fn div_trunc(a: i64, b: i64) -> (r: i64)
    requires
        b != 0,
    ensures
        r == trunc_div(a, b),
{
    if a == i64::MIN && b == -1 {
        i64::MIN
    } else {
        let ua: u64 = if a == i64::MIN {
            9223372036854775808u64
        } else if a < 0 {
            (-a) as u64
        } else {
            a as u64
        };
        let ub: u64 = if b == i64::MIN {
            9223372036854775808u64
        } else if b < 0 {
            (-b) as u64
        } else {
            b as u64
        };
        assert(ua == abs_int(a as int));
        assert(ub == abs_int(b as int));
        let q = ua / ub;
        let neg = (a < 0) != (b < 0);
        if neg {
            assert(q <= ua) by (nonlinear_arith)
                requires ub >= 1 && q == ua / ub,
            ;
            if q >= 9223372036854775808u64 {
                assert(q == 9223372036854775808u64);
                i64::MIN
            } else {
                -(q as i64)
            }
        } else {
            assert(q <= ua) by (nonlinear_arith)
                requires ub >= 1 && q == ua / ub,
            ;
            if a == i64::MIN {
                assert(b <= -2);
                assert(ub >= 2);
                assert(q <= 9223372036854775807u64) by (nonlinear_arith)
                    requires ua == 9223372036854775808u64 && ub >= 2 && q == ua / ub,
                ;
            }
            q as i64
        }
    }
}

/// Evaluates a factor: literals yield their value, a parenthesized
/// expression recurses, and a variable reads the current store, failing
/// with `UndefinedVariable` when the name is unbound.
pub fn eval_factor(f: &Factor, program_state: &Store) -> (r: Result<Val, RuntimeError>)
    requires
        program_state.wf(),
    ensures
        res_view(r) == eval_factor_spec(view_factor(*f), program_state@),
    decreases *f,
{
    match f {
        Factor::Paren { inner, .. } => eval_expression(&**inner, program_state),
        Factor::Number { value, .. } => Ok(Val::Integer(*value)),
        Factor::BooleanLit { value, .. } => Ok(Val::Boolean(*value)),
        Factor::Variable { name, span } => match program_state.get(name.as_slice()) {
            Some(v) => Ok(v),
            None => Err(RuntimeError::UndefinedVariable { name: name.clone(), span: *span }),
        },
    }
}

/// Evaluates a term.  The left factor runs first and must be an integer
/// before the right side runs at all; the trailing term, if any, is then
/// evaluated recursively (right-associative) and must be an integer too.
pub fn eval_term(t: &Term, program_state: &Store) -> (r: Result<Val, RuntimeError>)
    requires
        program_state.wf(),
    ensures
        res_view(r) == eval_term_spec(view_term(*t), program_state@),
    decreases *t,
{
    let lv = match eval_factor(&t.factor, program_state) {
        Ok(v) => v,
        Err(e) => {
            return Err(e);
        },
    };
    match &t.rest {
        None => Ok(lv),
        Some((op, rt)) => {
            let a = match lv {
                Val::Integer(a) => a,
                Val::Boolean(_) => {
                    return Err(RuntimeError::TypeMismatch { span: factor_span_of(&t.factor) });
                },
            };
            let rv = match eval_term(&**rt, program_state) {
                Ok(v) => v,
                Err(e) => {
                    return Err(e);
                },
            };
            let b = match rv {
                Val::Integer(b) => b,
                Val::Boolean(_) => {
                    return Err(RuntimeError::TypeMismatch { span: rt.span });
                },
            };
            match op {
                TermOp::Mul => Ok(Val::Integer(a.wrapping_mul(b))),
                TermOp::Div => {
                    if b == 0 {
                        Err(RuntimeError::DivisionByZero { span: rt.span })
                    } else {
                        Ok(Val::Integer(div_trunc(a, b)))
                    }
                },
            }
        },
    }
}

/// Evaluates an expression, in the same shape as `eval_term`: additive
/// arithmetic wraps around and comparisons yield booleans.
pub fn eval_expression(e: &Expression, program_state: &Store) -> (r: Result<Val, RuntimeError>)
    requires
        program_state.wf(),
    ensures
        res_view(r) == eval_expression_spec(view_expression(*e), program_state@),
    decreases *e,
{
    let lv = match eval_term(&e.term, program_state) {
        Ok(v) => v,
        Err(er) => {
            return Err(er);
        },
    };
    match &e.rest {
        None => Ok(lv),
        Some((op, re)) => {
            let a = match lv {
                Val::Integer(a) => a,
                Val::Boolean(_) => {
                    return Err(RuntimeError::TypeMismatch { span: e.term.span });
                },
            };
            let rv = match eval_expression(&**re, program_state) {
                Ok(v) => v,
                Err(er) => {
                    return Err(er);
                },
            };
            let b = match rv {
                Val::Integer(b) => b,
                Val::Boolean(_) => {
                    return Err(RuntimeError::TypeMismatch { span: re.span });
                },
            };
            match op {
                ExprOp::Add => Ok(Val::Integer(a.wrapping_add(b))),
                ExprOp::Sub => Ok(Val::Integer(a.wrapping_sub(b))),
                ExprOp::Less => Ok(Val::Boolean(a < b)),
                ExprOp::LessEq => Ok(Val::Boolean(a <= b)),
                ExprOp::Equal => Ok(Val::Boolean(a == b)),
                ExprOp::GreaterEq => Ok(Val::Boolean(a >= b)),
                ExprOp::Greater => Ok(Val::Boolean(a > b)),
            }
        },
    }
}

/// Evaluates the right-hand side and binds the variable to the result,
/// overwriting any earlier binding.
pub fn eval_assign(a: &AssignStmt, program_state: &mut Store) -> (r: Result<(), RuntimeError>)
    requires
        old(program_state).wf(),
    ensures
        final(program_state).wf(),
        match r {
            Ok(_) => eval_expression_spec(view_expression(a.expr), old(program_state)@) matches Ok(
                v,
            ) && final(program_state)@ == old(program_state)@.insert(a.name@, v),
            Err(e) => eval_expression_spec(view_expression(a.expr), old(program_state)@) == Err::<
                Val,
                RuntimeErrorV,
            >(e@) && final(program_state)@ == old(program_state)@,
        },
{
    let value = match eval_expression(&a.expr, program_state) {
        Ok(v) => v,
        Err(e) => {
            return Err(e);
        },
    };
    program_state.insert(a.name.clone(), value);
    Ok(())
}

/// Runs one `while` statement: the condition is evaluated against the
/// current store before every repetition and must be a boolean; while it
/// holds, the body runs against the same store.
pub fn eval_while(w: &WhileStmt, program_state: &mut Store, fuel: u64) -> (r: Result<
    (),
    RuntimeError,
>)
    requires
        old(program_state).wf(),
    ensures
        final(program_state).wf(),
        match r {
            Ok(_) => eval_stmt_spec(StmtV::While(view_while(*w)), old(program_state)@, fuel as nat)
                == Ok::<StoreV, RuntimeErrorV>(final(program_state)@),
            Err(e) => eval_stmt_spec(
                StmtV::While(view_while(*w)),
                old(program_state)@,
                fuel as nat,
            ) == Err::<StoreV, RuntimeErrorV>(e@),
        },
    decreases fuel, size_block(view_block(w.body)), 2int,
{
    let ghost wv = StmtV::While(view_while(*w));
    let mut f = fuel;
    loop
        invariant
            program_state.wf(),
            f <= fuel,
            wv == StmtV::While(view_while(*w)),
            eval_stmt_spec(wv, old(program_state)@, fuel as nat) == eval_stmt_spec(
                wv,
                program_state@,
                f as nat,
            ),
        decreases f,
    {
        let c = match eval_expression(&w.cond, program_state) {
            Ok(v) => v,
            Err(e) => {
                return Err(e);
            },
        };
        match c {
            Val::Integer(_) => {
                return Err(RuntimeError::TypeMismatch { span: w.cond.span });
            },
            Val::Boolean(false) => {
                return Ok(());
            },
            Val::Boolean(true) => {
                match eval_statements(&w.body, program_state, f) {
                    Err(e) => {
                        return Err(e);
                    },
                    Ok(_) => {
                        if f == 0 {
                            return Err(RuntimeError::IterationLimit { span: w.span });
                        }
                        f = f - 1;
                    },
                }
            },
        }
    }
}

/// Runs every statement of a block in order against the shared store; the
/// first failure aborts the rest.
pub fn eval_statements(b: &Block, program_state: &mut Store, fuel: u64) -> (r: Result<
    (),
    RuntimeError,
>)
    requires
        old(program_state).wf(),
    ensures
        final(program_state).wf(),
        match r {
            Ok(_) => eval_block_spec(view_block(*b), old(program_state)@, fuel as nat) == Ok::<
                StoreV,
                RuntimeErrorV,
            >(final(program_state)@),
            Err(e) => eval_block_spec(view_block(*b), old(program_state)@, fuel as nat) == Err::<
                StoreV,
                RuntimeErrorV,
            >(e@),
        },
    decreases fuel, size_block(view_block(*b)), 0int,
{
    match b {
        Block::Empty => Ok(()),
        Block::Cons { first, rest } => {
            match eval_stmt(&**first, program_state, fuel) {
                Err(e) => Err(e),
                Ok(_) => eval_statements(&**rest, program_state, fuel),
            }
        },
    }
}

/// Runs one statement.
pub fn eval_stmt(s: &Stmt, program_state: &mut Store, fuel: u64) -> (r: Result<(), RuntimeError>)
    requires
        old(program_state).wf(),
    ensures
        final(program_state).wf(),
        match r {
            Ok(_) => eval_stmt_spec(view_stmt(*s), old(program_state)@, fuel as nat) == Ok::<
                StoreV,
                RuntimeErrorV,
            >(final(program_state)@),
            Err(e) => eval_stmt_spec(view_stmt(*s), old(program_state)@, fuel as nat) == Err::<
                StoreV,
                RuntimeErrorV,
            >(e@),
        },
    decreases fuel, size_stmt(view_stmt(*s)), 1int,
{
    match s {
        Stmt::Assign(a) => eval_assign(a, program_state),
        Stmt::While(w) => eval_while(w, program_state, fuel),
    }
}

/// Walks the statements of a parse tree against a fresh, empty store and
/// returns the final store, or the first runtime error.  The result is
/// exactly what the specification-level semantics assigns to the tree at
/// the evaluator's fuel bound.
pub fn evaluate(tree: &SyntaxTree) -> (r: Result<Store, RuntimeError>)
    ensures
        match r {
            Ok(st) => st.wf() && eval_block_spec(
                view_tree(*tree),
                Map::<Seq<u8>, Val>::empty(),
                FUEL as nat,
            ) == Ok::<StoreV, RuntimeErrorV>(st@),
            Err(e) => eval_block_spec(
                view_tree(*tree),
                Map::<Seq<u8>, Val>::empty(),
                FUEL as nat,
            ) == Err::<StoreV, RuntimeErrorV>(e@),
        },
{
    let mut program_state = Store::new();
    match eval_statements(&tree.statements, &mut program_state, FUEL) {
        Ok(_) => Ok(program_state),
        Err(e) => Err(e),
    }
}

} // verus!
