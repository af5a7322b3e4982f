use vstd::prelude::*;
use crate::ast::{factor_span, size_block, size_stmt, BlockV, ExprOp, ExpressionV, FactorV, StmtV, TermOp, TermV};
use crate::errors::RuntimeErrorV;
use crate::value::Val;

verus! {

/// The mathematical variable store: variable names (their bytes) to values.
pub type StoreV = Map<Seq<u8>, Val>;

pub open spec fn abs_int(x: int) -> int {
    if x < 0 {
        -x
    } else {
        x
    }
}

/// Rust's truncating (round toward zero) 64-bit division, wrapping on the
/// one overflowing case `i64::MIN / -1`.
pub open spec fn trunc_div(a: i64, b: i64) -> i64
    recommends
        b != 0,
{
    if a == i64::MIN && b == -1 {
        i64::MIN
    } else if (a < 0) != (b < 0) {
        (-(abs_int(a as int) / abs_int(b as int))) as i64
    } else {
        (abs_int(a as int) / abs_int(b as int)) as i64
    }
}

/// The value produced by an expression-level operator on two integers.
/// Additive arithmetic wraps around; comparisons yield booleans.
pub open spec fn apply_expr_op(op: ExprOp, a: i64, b: i64) -> Val {
    match op {
        ExprOp::Add => Val::Integer(a.wrapping_add(b)),
        ExprOp::Sub => Val::Integer(a.wrapping_sub(b)),
        ExprOp::Less => Val::Boolean(a < b),
        ExprOp::LessEq => Val::Boolean(a <= b),
        ExprOp::Equal => Val::Boolean(a == b),
        ExprOp::GreaterEq => Val::Boolean(a >= b),
        ExprOp::Greater => Val::Boolean(a > b),
    }
}

/// What a factor evaluates to under a given store.
pub open spec fn eval_factor_spec(f: FactorV, st: StoreV) -> Result<Val, RuntimeErrorV>
    decreases f,
{
    match f {
        FactorV::Paren { inner, .. } => eval_expression_spec(*inner, st),
        FactorV::Number { value, .. } => Ok(Val::Integer(value)),
        FactorV::BooleanLit { value, .. } => Ok(Val::Boolean(value)),
        FactorV::Variable { name, span } => if st.contains_key(name) {
            Ok(st[name])
        } else {
            Err(RuntimeErrorV::UndefinedVariable { name, span })
        },
    }
}

/// What a term evaluates to: the left factor first; if an operator follows,
/// the left operand must be an integer before the right side even runs, then
/// the right term is evaluated recursively (right-associative) and must be an
/// integer too.  Division by zero is its own error.
pub open spec fn eval_term_spec(t: TermV, st: StoreV) -> Result<Val, RuntimeErrorV>
    decreases t,
{
    match eval_factor_spec(t.factor, st) {
        Err(e) => Err(e),
        Ok(lv) => match t.rest {
            Option::None => Ok(lv),
            Option::Some((op, rt)) => match lv {
                Val::Boolean(_) => Err(RuntimeErrorV::TypeMismatch { span: factor_span(t.factor) }),
                Val::Integer(a) => match eval_term_spec(*rt, st) {
                    Err(e) => Err(e),
                    Ok(rv) => match rv {
                        Val::Boolean(_) => Err(RuntimeErrorV::TypeMismatch { span: rt.span }),
                        Val::Integer(b) => match op {
                            TermOp::Mul => Ok(Val::Integer(a.wrapping_mul(b))),
                            TermOp::Div => if b == 0 {
                                Err(RuntimeErrorV::DivisionByZero { span: rt.span })
                            } else {
                                Ok(Val::Integer(trunc_div(a, b)))
                            },
                        },
                    },
                },
            },
        },
    }
}

/// What an expression evaluates to, in the same shape as `eval_term_spec`.
pub open spec fn eval_expression_spec(e: ExpressionV, st: StoreV) -> Result<Val, RuntimeErrorV>
    decreases e,
{
    match eval_term_spec(e.term, st) {
        Err(er) => Err(er),
        Ok(lv) => match e.rest {
            Option::None => Ok(lv),
            Option::Some((op, re)) => match lv {
                Val::Boolean(_) => Err(RuntimeErrorV::TypeMismatch { span: e.term.span }),
                Val::Integer(a) => match eval_expression_spec(*re, st) {
                    Err(er) => Err(er),
                    Ok(rv) => match rv {
                        Val::Boolean(_) => Err(RuntimeErrorV::TypeMismatch { span: re.span }),
                        Val::Integer(b) => Ok(apply_expr_op(op, a, b)),
                    },
                },
            },
        },
    }
}

/// What a statement does to the store.  `fuel` bounds how often each `while`
/// statement may iterate: one unit pays for one repetition of the loop, and a
/// loop still running at fuel zero reports `IterationLimit`.
pub open spec fn eval_stmt_spec(s: StmtV, st: StoreV, fuel: nat) -> Result<StoreV, RuntimeErrorV>
    decreases fuel, size_stmt(s),
{
    match s {
        StmtV::Assign(a) => match eval_expression_spec(a.expr, st) {
            Err(e) => Err(e),
            Ok(v) => Ok(st.insert(a.name, v)),
        },
        StmtV::While(w) => match eval_expression_spec(w.cond, st) {
            Err(e) => Err(e),
            Ok(Val::Integer(_)) => Err(RuntimeErrorV::TypeMismatch { span: w.cond.span }),
            Ok(Val::Boolean(false)) => Ok(st),
            Ok(Val::Boolean(true)) => match eval_block_spec(w.body, st, fuel) {
                Err(e) => Err(e),
                Ok(st2) => if fuel == 0 {
                    Err(RuntimeErrorV::IterationLimit { span: w.span })
                } else {
                    eval_stmt_spec(s, st2, (fuel - 1) as nat)
                },
            },
        },
    }
}

/// What a block does to the store: its statements run in order, each against
/// the store the previous one left, and the first failure aborts the rest.
pub open spec fn eval_block_spec(b: BlockV, st: StoreV, fuel: nat) -> Result<StoreV, RuntimeErrorV>
    decreases fuel, size_block(b),
{
    match b {
        BlockV::Empty => Ok(st),
        BlockV::Cons { first, rest } => match eval_stmt_spec(*first, st, fuel) {
            Err(e) => Err(e),
            Ok(st2) => eval_block_spec(*rest, st2, fuel),
        },
    }
}

/// A statement that is not a `while` loop.
pub open spec fn loop_free_stmt(s: StmtV) -> bool {
    match s {
        StmtV::Assign(_) => true,
        StmtV::While(_) => false,
    }
}

/// A block none of whose statements is a `while` loop.
pub open spec fn loop_free_block(b: BlockV) -> bool
    decreases b,
{
    match b {
        BlockV::Empty => true,
        BlockV::Cons { first, rest } => loop_free_stmt(*first) && loop_free_block(*rest),
    }
}

/// Whether an outcome is the evaluator's fuel bound being hit, rather than
/// a result the program reached on its own.
pub open spec fn limited(r: Result<StoreV, RuntimeErrorV>) -> bool {
    r matches Err(RuntimeErrorV::IterationLimit { .. })
}

proof fn lemma_factor_no_limit(f: FactorV, st: StoreV)
    ensures
        !(eval_factor_spec(f, st) matches Err(RuntimeErrorV::IterationLimit { .. })),
    decreases f,
{
    match f {
        FactorV::Paren { inner, .. } => lemma_expression_no_limit(*inner, st),
        _ => {},
    }
}

proof fn lemma_term_no_limit(t: TermV, st: StoreV)
    ensures
        !(eval_term_spec(t, st) matches Err(RuntimeErrorV::IterationLimit { .. })),
    decreases t,
{
    lemma_factor_no_limit(t.factor, st);
    match t.rest {
        Option::None => {},
        Option::Some((_, rt)) => lemma_term_no_limit(*rt, st),
    }
}

proof fn lemma_expression_no_limit(e: ExpressionV, st: StoreV)
    ensures
        !(eval_expression_spec(e, st) matches Err(RuntimeErrorV::IterationLimit { .. })),
    decreases e,
{
    lemma_term_no_limit(e.term, st);
    match e.rest {
        Option::None => {},
        Option::Some((_, re)) => lemma_expression_no_limit(*re, st),
    }
}

/// Law: a program without loops needs no fuel.  Evaluating its statements
/// yields one and the same completed outcome under every fuel bound, so
/// re-running `evaluate` on the same parsed tree from a fresh empty store
/// is deterministic: identical final store contents every run.
pub proof fn lemma_loop_free_deterministic(b: BlockV, st: StoreV, f1: nat, f2: nat)
    requires
        loop_free_block(b),
    ensures
        eval_block_spec(b, st, f1) == eval_block_spec(b, st, f2),
        !limited(eval_block_spec(b, st, f1)),
    decreases b,
{
    match b {
        BlockV::Empty => {},
        BlockV::Cons { first, rest } => {
            match *first {
                StmtV::While(_) => {},
                StmtV::Assign(a) => {
                    lemma_expression_no_limit(a.expr, st);
                    assert(eval_stmt_spec(*first, st, f1) == eval_stmt_spec(*first, st, f2));
                    match eval_stmt_spec(*first, st, f1) {
                        Err(_) => {},
                        Ok(st2) => {
                            lemma_loop_free_deterministic(*rest, st2, f1, f2);
                        },
                    }
                },
            }
        },
    }
}

/// Law: raising the fuel bound never changes an outcome that a statement
/// reached on its own.
pub proof fn lemma_stmt_fuel_mono(s: StmtV, st: StoreV, f1: nat, f2: nat)
    requires
        f1 <= f2,
        !limited(eval_stmt_spec(s, st, f1)),
    ensures
        eval_stmt_spec(s, st, f2) == eval_stmt_spec(s, st, f1),
    decreases f1, size_stmt(s),
{
    match s {
        StmtV::Assign(_) => {},
        StmtV::While(w) => {
            match eval_expression_spec(w.cond, st) {
                Err(_) => {},
                Ok(v) => match v {
                    Val::Integer(_) => {},
                    Val::Boolean(false) => {},
                    Val::Boolean(true) => {
                        lemma_block_fuel_mono(w.body, st, f1, f2);
                        match eval_block_spec(w.body, st, f1) {
                            Err(_) => {},
                            Ok(st2) => {
                                lemma_stmt_fuel_mono(s, st2, (f1 - 1) as nat, (f2 - 1) as nat);
                            },
                        }
                    },
                },
            }
        },
    }
}

/// Law: raising the fuel bound never changes an outcome that a block
/// reached on its own.
pub proof fn lemma_block_fuel_mono(b: BlockV, st: StoreV, f1: nat, f2: nat)
    requires
        f1 <= f2,
        !limited(eval_block_spec(b, st, f1)),
    ensures
        eval_block_spec(b, st, f2) == eval_block_spec(b, st, f1),
    decreases f1, size_block(b),
{
    match b {
        BlockV::Empty => {},
        BlockV::Cons { first, rest } => {
            lemma_stmt_fuel_mono(*first, st, f1, f2);
            match eval_stmt_spec(*first, st, f1) {
                Err(_) => {},
                Ok(st2) => {
                    lemma_block_fuel_mono(*rest, st2, f1, f2);
                },
            }
        },
    }
}

/// Law: evaluation is deterministic.  Any two completed outcomes of the
/// same block from the same store agree, whatever fuel bounds produced
/// them.
pub proof fn lemma_eval_deterministic(b: BlockV, st: StoreV, f1: nat, f2: nat)
    requires
        !limited(eval_block_spec(b, st, f1)),
        !limited(eval_block_spec(b, st, f2)),
    ensures
        eval_block_spec(b, st, f1) == eval_block_spec(b, st, f2),
{
    if f1 <= f2 {
        lemma_block_fuel_mono(b, st, f1, f2);
    } else {
        lemma_block_fuel_mono(b, st, f2, f1);
    }
}

} // verus!
