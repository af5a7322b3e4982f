use vstd::prelude::*;
use crate::span::Span;

verus! {

/// Operators that may join a term to a trailing expression: additive
/// arithmetic and the integer comparisons.
#[derive(Debug, Clone, Copy, PartialEq, Eq, Structural)]
pub enum ExprOp {
    Add,
    Sub,
    Less,
    LessEq,
    Equal,
    GreaterEq,
    Greater,
}

/// Operators that may join a factor to a trailing term.
#[derive(Debug, Clone, Copy, PartialEq, Eq, Structural)]
pub enum TermOp {
    Mul,
    Div,
}

/// factor = "(" expression ")" | number | boolean | identifier
pub enum Factor {
    Paren { inner: Box<Expression>, span: Span },
    Number { value: i64, span: Span },
    BooleanLit { value: bool, span: Span },
    Variable { name: Vec<u8>, span: Span },
}

/// term = factor (term_op term)? — right-associative by construction.
pub struct Term {
    pub factor: Factor,
    pub rest: Option<(TermOp, Box<Term>)>,
    pub span: Span,
}

/// expression = term (expr_op expression)? — right-associative by construction.
pub struct Expression {
    pub term: Term,
    pub rest: Option<(ExprOp, Box<Expression>)>,
    pub span: Span,
}

/// assign_stmt = identifier "=" expression
pub struct AssignStmt {
    pub name: Vec<u8>,
    pub name_span: Span,
    pub expr: Expression,
    pub span: Span,
}

/// while_stmt = "while" expression "{" statement* "}"
pub struct WhileStmt {
    pub cond: Expression,
    pub body: Block,
    pub span: Span,
}

/// statement = while_stmt | assign_stmt
pub enum Stmt {
    Assign(AssignStmt),
    While(WhileStmt),
}

/// An ordered sequence of statements, stored as a chain so that the
/// evaluator and its specification can walk it by structural recursion.
pub enum Block {
    Empty,
    Cons { first: Box<Stmt>, rest: Box<Block> },
}

/// The parse tree of a whole source file.
pub struct SyntaxTree {
    pub statements: Block,
}

/// Mathematical image of `Factor`: identifiers carry their bytes.
pub enum FactorV {
    Paren { inner: Box<ExpressionV>, span: Span },
    Number { value: i64, span: Span },
    BooleanLit { value: bool, span: Span },
    Variable { name: Seq<u8>, span: Span },
}

/// Mathematical image of `Term`.
pub struct TermV {
    pub factor: FactorV,
    pub rest: Option<(TermOp, Box<TermV>)>,
    pub span: Span,
}

/// Mathematical image of `Expression`.
pub struct ExpressionV {
    pub term: TermV,
    pub rest: Option<(ExprOp, Box<ExpressionV>)>,
    pub span: Span,
}

/// Mathematical image of `AssignStmt`.
pub struct AssignStmtV {
    pub name: Seq<u8>,
    pub name_span: Span,
    pub expr: ExpressionV,
    pub span: Span,
}

/// Mathematical image of `WhileStmt`.
pub struct WhileStmtV {
    pub cond: ExpressionV,
    pub body: BlockV,
    pub span: Span,
}

/// Mathematical image of `Stmt`.
pub enum StmtV {
    Assign(AssignStmtV),
    While(WhileStmtV),
}

/// Mathematical image of `Block`.
pub enum BlockV {
    Empty,
    Cons { first: Box<StmtV>, rest: Box<BlockV> },
}

pub open spec fn view_factor(f: Factor) -> FactorV
    decreases f,
{
    match f {
        Factor::Paren { inner, span } => FactorV::Paren {
            inner: Box::new(view_expression(*inner)),
            span,
        },
        Factor::Number { value, span } => FactorV::Number { value, span },
        Factor::BooleanLit { value, span } => FactorV::BooleanLit { value, span },
        Factor::Variable { name, span } => FactorV::Variable { name: name@, span },
    }
}

pub open spec fn view_term(t: Term) -> TermV
    decreases t,
{
    TermV {
        factor: view_factor(t.factor),
        rest: match t.rest {
            Option::None => Option::None,
            Option::Some((op, rt)) => Option::Some((op, Box::new(view_term(*rt)))),
        },
        span: t.span,
    }
}

pub open spec fn view_expression(e: Expression) -> ExpressionV
    decreases e,
{
    ExpressionV {
        term: view_term(e.term),
        rest: match e.rest {
            Option::None => Option::None,
            Option::Some((op, re)) => Option::Some((op, Box::new(view_expression(*re)))),
        },
        span: e.span,
    }
}

pub open spec fn view_assign(a: AssignStmt) -> AssignStmtV {
    AssignStmtV { name: a.name@, name_span: a.name_span, expr: view_expression(a.expr), span: a.span }
}

pub open spec fn view_while(w: WhileStmt) -> WhileStmtV
    decreases w,
{
    WhileStmtV { cond: view_expression(w.cond), body: view_block(w.body), span: w.span }
}

pub open spec fn view_stmt(s: Stmt) -> StmtV
    decreases s,
{
    match s {
        Stmt::Assign(a) => StmtV::Assign(view_assign(a)),
        Stmt::While(w) => StmtV::While(view_while(w)),
    }
}

pub open spec fn view_block(b: Block) -> BlockV
    decreases b,
{
    match b {
        Block::Empty => BlockV::Empty,
        Block::Cons { first, rest } => BlockV::Cons {
            first: Box::new(view_stmt(*first)),
            rest: Box::new(view_block(*rest)),
        },
    }
}

pub open spec fn view_tree(t: SyntaxTree) -> BlockV {
    view_block(t.statements)
}

/// The span carried by a factor.
pub open spec fn factor_span(f: FactorV) -> Span {
    match f {
        FactorV::Paren { span, .. } => span,
        FactorV::Number { span, .. } => span,
        FactorV::BooleanLit { span, .. } => span,
        FactorV::Variable { span, .. } => span,
    }
}

/// Structural size of a statement, the termination measure of evaluation
/// within one fuel level.
pub open spec fn size_stmt(s: StmtV) -> nat
    decreases s,
{
    match s {
        StmtV::Assign(_) => 1,
        StmtV::While(w) => 1 + size_block(w.body),
    }
}

/// Structural size of a block.
pub open spec fn size_block(b: BlockV) -> nat
    decreases b,
{
    match b {
        BlockV::Empty => 0,
        BlockV::Cons { first, rest } => 1 + size_stmt(*first) + size_block(*rest),
    }
}

} // verus!
