use vstd::prelude::*;
use crate::span::Span;
use crate::tokens::TokKind;
use crate::render::{
    lit_at_line_s, lit_column_s, lit_division_by_zero, lit_division_by_zero_s, lit_iteration_limit,
    lit_iteration_limit_s, lit_syntax_error, lit_syntax_error_s, lit_type_mismatch,
    lit_type_mismatch_s, lit_undefined_variable, lit_undefined_variable_s, location_s,
    render_location,
};

verus! {

/// The source text does not match the grammar: carries the position of the
/// first offending byte (offset, 1-based line and column) and the set of
/// token kinds that would have been accepted there.
#[derive(Debug, Clone, PartialEq, Eq)]
pub struct SyntaxError {
    pub pos: usize,
    pub line: usize,
    pub col: usize,
    pub expected: Vec<TokKind>,
}

/// Mathematical image of `SyntaxError`.
pub struct SyntaxErrorV {
    pub pos: int,
    pub line: int,
    pub col: int,
    pub expected: Seq<TokKind>,
}

impl View for SyntaxError {
    type V = SyntaxErrorV;

    open spec fn view(&self) -> SyntaxErrorV {
        SyntaxErrorV {
            pos: self.pos as int,
            line: self.line as int,
            col: self.col as int,
            expected: self.expected@,
        }
    }
}

/// An error raised while evaluating a parse tree, tied to the span of the
/// offending node.
#[derive(Debug, Clone, PartialEq, Eq)]
pub enum RuntimeError {
    /// An operator or a `while` condition received an operand of the wrong tag.
    TypeMismatch { span: Span },
    /// A variable was read before any assignment to it.
    UndefinedVariable { name: Vec<u8>, span: Span },
    /// Integer division with a zero divisor.
    DivisionByZero { span: Span },
    /// A `while` loop ran for more iterations than the evaluator's bound.
    IterationLimit { span: Span },
}

/// Mathematical image of `RuntimeError`.
pub enum RuntimeErrorV {
    TypeMismatch { span: Span },
    UndefinedVariable { name: Seq<u8>, span: Span },
    DivisionByZero { span: Span },
    IterationLimit { span: Span },
}

impl View for RuntimeError {
    type V = RuntimeErrorV;

    open spec fn view(&self) -> RuntimeErrorV {
        match *self {
            RuntimeError::TypeMismatch { span } => RuntimeErrorV::TypeMismatch { span },
            RuntimeError::UndefinedVariable { name, span } => RuntimeErrorV::UndefinedVariable {
                name: name@,
                span,
            },
            RuntimeError::DivisionByZero { span } => RuntimeErrorV::DivisionByZero { span },
            RuntimeError::IterationLimit { span } => RuntimeErrorV::IterationLimit { span },
        }
    }
}

/// Either kind of failure `run` can report.
#[derive(Debug, Clone, PartialEq, Eq)]
pub enum InterpreterError {
    Syntax(SyntaxError),
    Runtime(RuntimeError),
}

/// Mathematical image of `InterpreterError`.
pub enum InterpreterErrorV {
    Syntax(SyntaxErrorV),
    Runtime(RuntimeErrorV),
}

impl View for InterpreterError {
    type V = InterpreterErrorV;

    open spec fn view(&self) -> InterpreterErrorV {
        match self {
            InterpreterError::Syntax(e) => InterpreterErrorV::Syntax(e@),
            InterpreterError::Runtime(e) => InterpreterErrorV::Runtime(e@),
        }
    }
}


/// The rendering of a syntax error: `"syntax error at line L, column C"`.
pub open spec fn render_syntax_s(e: SyntaxErrorV) -> Seq<u8> {
    lit_syntax_error_s() + location_s(e.line, e.col)
}

/// The rendering of a runtime error: its kind (and, for an undefined
/// variable, the name) followed by `" at line L, column C"`.
pub open spec fn render_runtime_s(e: RuntimeErrorV) -> Seq<u8> {
    match e {
        RuntimeErrorV::TypeMismatch { span } => lit_type_mismatch_s() + location_s(
            span.line as int,
            span.col as int,
        ),
        RuntimeErrorV::UndefinedVariable { name, span } => lit_undefined_variable_s() + name
            + location_s(span.line as int, span.col as int),
        RuntimeErrorV::DivisionByZero { span } => lit_division_by_zero_s() + location_s(
            span.line as int,
            span.col as int,
        ),
        RuntimeErrorV::IterationLimit { span } => lit_iteration_limit_s() + location_s(
            span.line as int,
            span.col as int,
        ),
    }
}

/// The rendering of either failure kind.
pub open spec fn render_interpreter_s(e: InterpreterErrorV) -> Seq<u8> {
    match e {
        InterpreterErrorV::Syntax(s) => render_syntax_s(s),
        InterpreterErrorV::Runtime(r) => render_runtime_s(r),
    }
}

impl SyntaxError {
    /// Renders the error without needing the parse tree or source alive.
    pub fn render(&self) -> (r: Vec<u8>)
        ensures
            r@ == render_syntax_s(self@),
    {
        let mut out = lit_syntax_error();
        let mut l = render_location(self.line, self.col);
        out.append(&mut l);
        proof {
            assert(out@ =~= render_syntax_s(self@));
        }
        out
    }
}

impl RuntimeError {
    /// Renders the error without needing the parse tree or source alive.
    pub fn render(&self) -> (r: Vec<u8>)
        ensures
            r@ == render_runtime_s(self@),
    {
        match self {
            RuntimeError::TypeMismatch { span } => {
                let mut out = lit_type_mismatch();
                let mut l = render_location(span.line, span.col);
                out.append(&mut l);
                proof {
                    assert(out@ =~= render_runtime_s(self@));
                }
                out
            },
            RuntimeError::UndefinedVariable { name, span } => {
                let mut out = lit_undefined_variable();
                let mut n = name.clone();
                out.append(&mut n);
                let mut l = render_location(span.line, span.col);
                out.append(&mut l);
                proof {
                    assert(out@ =~= render_runtime_s(self@));
                }
                out
            },
            RuntimeError::DivisionByZero { span } => {
                let mut out = lit_division_by_zero();
                let mut l = render_location(span.line, span.col);
                out.append(&mut l);
                proof {
                    assert(out@ =~= render_runtime_s(self@));
                }
                out
            },
            RuntimeError::IterationLimit { span } => {
                let mut out = lit_iteration_limit();
                let mut l = render_location(span.line, span.col);
                out.append(&mut l);
                proof {
                    assert(out@ =~= render_runtime_s(self@));
                }
                out
            },
        }
    }
}

impl InterpreterError {
    /// Renders either failure kind the same way the driver reports it.
    pub fn render(&self) -> (r: Vec<u8>)
        ensures
            r@ == render_interpreter_s(self@),
    {
        match self {
            InterpreterError::Syntax(e) => e.render(),
            InterpreterError::Runtime(e) => e.render(),
        }
    }
}

} // verus!
