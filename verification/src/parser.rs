use vstd::prelude::*;
use vstd::string::StringSliceAdditionalSpecFns;
use crate::ast::{
    factor_span, view_block, view_expression, view_factor, view_stmt, view_term, view_tree,
    AssignStmt, Block, BlockV, Expression, ExpressionV, Factor, FactorV, Stmt, StmtV, SyntaxTree,
    Term, TermOp, TermV, WhileStmt,
};
use crate::errors::{SyntaxError, SyntaxErrorV};
use crate::eval::factor_span_of;
use crate::grammar::{
    err_at, err_unreachable, expr_op_of, is_expr_op, is_term_op, spec_parse, spec_parse_block,
    spec_parse_expression, spec_parse_factor, spec_parse_file, spec_parse_statement,
    spec_parse_term, term_op_of,
};
use crate::lexer::tokenize;
use crate::span::Span;
use crate::tokens::{toks_view, Tok, TokKind, Token, TokenV};

verus! {

fn mk_err_unreachable() -> (e: SyntaxError)
    ensures
        e@ == err_unreachable(),
{
    let e = SyntaxError { pos: 0, line: 1, col: 1, expected: Vec::new() };
    assert(e@.expected =~= err_unreachable().expected);
    e
}

fn mk_err_at(sp: Span, expected: Vec<TokKind>) -> (e: SyntaxError)
    ensures
        e@ == err_at(sp, expected@),
{
    SyntaxError { pos: sp.start, line: sp.line, col: sp.col, expected }
}

fn is_term_op_b(t: &Tok) -> (r: bool)
    ensures
        r == is_term_op(t@),
{
    match t {
        Tok::Star => true,
        Tok::Slash => true,
        _ => false,
    }
}

fn term_op_b(t: &Tok) -> (r: TermOp)
    ensures
        r == term_op_of(t@),
{
    match t {
        Tok::Star => TermOp::Mul,
        _ => TermOp::Div,
    }
}

fn is_expr_op_b(t: &Tok) -> (r: bool)
    ensures
        r == is_expr_op(t@),
{
    match t {
        Tok::Plus => true,
        Tok::Minus => true,
        Tok::Less => true,
        Tok::LessEq => true,
        Tok::EqEq => true,
        Tok::GreaterEq => true,
        Tok::Greater => true,
        _ => false,
    }
}

fn expr_op_b(t: &Tok) -> (r: crate::ast::ExprOp)
    ensures
        r == expr_op_of(t@),
{
    match t {
        Tok::Plus => crate::ast::ExprOp::Add,
        Tok::Minus => crate::ast::ExprOp::Sub,
        Tok::Less => crate::ast::ExprOp::Less,
        Tok::LessEq => crate::ast::ExprOp::LessEq,
        Tok::EqEq => crate::ast::ExprOp::Equal,
        Tok::GreaterEq => crate::ast::ExprOp::GreaterEq,
        _ => crate::ast::ExprOp::Greater,
    }
}

fn parse_factor(toks: &Vec<Token>, p: usize) -> (r: Result<(Factor, usize), SyntaxError>)
    ensures
        match r {
            Ok((f, p2)) => spec_parse_factor(toks_view(toks@), p as int) == Ok::<
                (FactorV, int),
                SyntaxErrorV,
            >((view_factor(f), p2 as int)) && p < p2 <= toks@.len(),
            Err(e) => spec_parse_factor(toks_view(toks@), p as int) == Err::<
                (FactorV, int),
                SyntaxErrorV,
            >(e@),
        },
    decreases toks@.len() - p, 0int,
{
    if p >= toks.len() {
        return Err(mk_err_unreachable());
    }
    let tsp = toks[p].span;
    match &toks[p].tok {
        Tok::Number(n) => Ok((Factor::Number { value: *n, span: tsp }, p + 1)),
        Tok::BooleanLit(b) => Ok((Factor::BooleanLit { value: *b, span: tsp }, p + 1)),
        Tok::Identifier(name) => Ok((Factor::Variable { name: name.clone(), span: tsp }, p + 1)),
        Tok::LParen => {
            match parse_expression(toks, p + 1) {
                Err(e) => Err(e),
                Ok((inner, p2)) => {
                    if p2 < toks.len() && matches!(&toks[p2].tok, Tok::RParen) {
                        let sp = Span {
                            start: tsp.start,
                            end: toks[p2].span.end,
                            line: tsp.line,
                            col: tsp.col,
                        };
                        Ok((Factor::Paren { inner: Box::new(inner), span: sp }, p2 + 1))
                    } else if p2 < toks.len() {
                        let mut expected: Vec<TokKind> = Vec::new();
                        expected.push(TokKind::RParen);
                        assert(expected@ =~= seq![TokKind::RParen]);
                        Err(mk_err_at(toks[p2].span, expected))
                    } else {
                        Err(mk_err_unreachable())
                    }
                },
            }
        },
        _ => {
            let mut expected: Vec<TokKind> = Vec::new();
            expected.push(TokKind::LParen);
            expected.push(TokKind::Number);
            expected.push(TokKind::BooleanLit);
            expected.push(TokKind::Identifier);
            assert(expected@ =~= seq![TokKind::LParen, TokKind::Number, TokKind::BooleanLit,
                TokKind::Identifier]);
            Err(mk_err_at(tsp, expected))
        },
    }
}

fn parse_term(toks: &Vec<Token>, p: usize) -> (r: Result<(Term, usize), SyntaxError>)
    ensures
        match r {
            Ok((t, p2)) => spec_parse_term(toks_view(toks@), p as int) == Ok::<
                (TermV, int),
                SyntaxErrorV,
            >((view_term(t), p2 as int)) && p < p2 <= toks@.len(),
            Err(e) => spec_parse_term(toks_view(toks@), p as int) == Err::<
                (TermV, int),
                SyntaxErrorV,
            >(e@),
        },
    decreases toks@.len() - p, 1int,
{
    match parse_factor(toks, p) {
        Err(e) => Err(e),
        Ok((f, p2)) => {
            if p2 < toks.len() && is_term_op_b(&toks[p2].tok) {
                let op = term_op_b(&toks[p2].tok);
                match parse_term(toks, p2 + 1) {
                    Err(e) => Err(e),
                    Ok((rt, p3)) => {
                        let fsp = factor_span_of(&f);
                        let sp = Span {
                            start: fsp.start,
                            end: rt.span.end,
                            line: fsp.line,
                            col: fsp.col,
                        };
                        Ok((Term { factor: f, rest: Some((op, Box::new(rt))), span: sp }, p3))
                    },
                }
            } else {
                let fsp = factor_span_of(&f);
                Ok((Term { factor: f, rest: None, span: fsp }, p2))
            }
        },
    }
}

fn parse_expression(toks: &Vec<Token>, p: usize) -> (r: Result<(Expression, usize), SyntaxError>)
    ensures
        match r {
            Ok((e0, p2)) => spec_parse_expression(toks_view(toks@), p as int) == Ok::<
                (ExpressionV, int),
                SyntaxErrorV,
            >((view_expression(e0), p2 as int)) && p < p2 <= toks@.len(),
            Err(e) => spec_parse_expression(toks_view(toks@), p as int) == Err::<
                (ExpressionV, int),
                SyntaxErrorV,
            >(e@),
        },
    decreases toks@.len() - p, 2int,
{
    match parse_term(toks, p) {
        Err(e) => Err(e),
        Ok((lt, p2)) => {
            if p2 < toks.len() && is_expr_op_b(&toks[p2].tok) {
                let op = expr_op_b(&toks[p2].tok);
                match parse_expression(toks, p2 + 1) {
                    Err(e) => Err(e),
                    Ok((re, p3)) => {
                        let sp = Span {
                            start: lt.span.start,
                            end: re.span.end,
                            line: lt.span.line,
                            col: lt.span.col,
                        };
                        Ok(
                            (
                                Expression { term: lt, rest: Some((op, Box::new(re))), span: sp },
                                p3,
                            ),
                        )
                    },
                }
            } else {
                let sp = lt.span;
                Ok((Expression { term: lt, rest: None, span: sp }, p2))
            }
        },
    }
}

fn parse_statement(toks: &Vec<Token>, p: usize) -> (r: Result<(Stmt, usize), SyntaxError>)
    ensures
        match r {
            Ok((s, p2)) => spec_parse_statement(toks_view(toks@), p as int) == Ok::<
                (StmtV, int),
                SyntaxErrorV,
            >((view_stmt(s), p2 as int)) && p < p2 <= toks@.len(),
            Err(e) => spec_parse_statement(toks_view(toks@), p as int) == Err::<
                (StmtV, int),
                SyntaxErrorV,
            >(e@),
        },
    decreases toks@.len() - p, 3int,
{
    if p >= toks.len() {
        return Err(mk_err_unreachable());
    }
    let tsp = toks[p].span;
    match &toks[p].tok {
        Tok::KwWhile => {
            match parse_expression(toks, p + 1) {
                Err(e) => Err(e),
                Ok((cond, p2)) => {
                    if p2 < toks.len() && matches!(&toks[p2].tok, Tok::LBrace) {
                        match parse_block(toks, p2 + 1) {
                            Err(e) => Err(e),
                            Ok((body, p3)) => {
                                if p3 < toks.len() && matches!(&toks[p3].tok, Tok::RBrace) {
                                    let sp = Span {
                                        start: tsp.start,
                                        end: toks[p3].span.end,
                                        line: tsp.line,
                                        col: tsp.col,
                                    };
                                    Ok((Stmt::While(WhileStmt { cond, body, span: sp }), p3 + 1))
                                } else if p3 < toks.len() {
                                    let mut expected: Vec<TokKind> = Vec::new();
                                    expected.push(TokKind::RBrace);
                                    expected.push(TokKind::KwWhile);
                                    expected.push(TokKind::Identifier);
                                    expected.push(TokKind::Semicolon);
                                    assert(expected@ =~= seq![TokKind::RBrace, TokKind::KwWhile,
                                        TokKind::Identifier, TokKind::Semicolon]);
                                    Err(mk_err_at(toks[p3].span, expected))
                                } else {
                                    Err(mk_err_unreachable())
                                }
                            },
                        }
                    } else if p2 < toks.len() {
                        let mut expected: Vec<TokKind> = Vec::new();
                        expected.push(TokKind::LBrace);
                        assert(expected@ =~= seq![TokKind::LBrace]);
                        Err(mk_err_at(toks[p2].span, expected))
                    } else {
                        Err(mk_err_unreachable())
                    }
                },
            }
        },
        Tok::Identifier(name) => {
            if p + 1 < toks.len() && matches!(&toks[p + 1].tok, Tok::Assign) {
                match parse_expression(toks, p + 2) {
                    Err(e) => Err(e),
                    Ok((e0, p2)) => {
                        let sp = Span {
                            start: tsp.start,
                            end: e0.span.end,
                            line: tsp.line,
                            col: tsp.col,
                        };
                        Ok(
                            (
                                Stmt::Assign(
                                    AssignStmt {
                                        name: name.clone(),
                                        name_span: tsp,
                                        expr: e0,
                                        span: sp,
                                    },
                                ),
                                p2,
                            ),
                        )
                    },
                }
            } else if p + 1 < toks.len() {
                let mut expected: Vec<TokKind> = Vec::new();
                expected.push(TokKind::Assign);
                assert(expected@ =~= seq![TokKind::Assign]);
                Err(mk_err_at(toks[p + 1].span, expected))
            } else {
                Err(mk_err_unreachable())
            }
        },
        _ => {
            let mut expected: Vec<TokKind> = Vec::new();
            expected.push(TokKind::KwWhile);
            expected.push(TokKind::Identifier);
            assert(expected@ =~= seq![TokKind::KwWhile, TokKind::Identifier]);
            Err(mk_err_at(tsp, expected))
        },
    }
}

fn parse_block(toks: &Vec<Token>, p: usize) -> (r: Result<(Block, usize), SyntaxError>)
    requires
        p <= toks@.len(),
    ensures
        match r {
            Ok((b, p2)) => spec_parse_block(toks_view(toks@), p as int) == Ok::<
                (BlockV, int),
                SyntaxErrorV,
            >((view_block(b), p2 as int)) && p <= p2 <= toks@.len(),
            Err(e) => spec_parse_block(toks_view(toks@), p as int) == Err::<
                (BlockV, int),
                SyntaxErrorV,
            >(e@),
        },
    decreases toks@.len() - p, 4int,
{
    if p >= toks.len() {
        return Ok((Block::Empty, p));
    }
    match &toks[p].tok {
        Tok::Semicolon => parse_block(toks, p + 1),
        Tok::KwWhile | Tok::Identifier(_) => {
            match parse_statement(toks, p) {
                Err(e) => Err(e),
                Ok((s, p2)) => match parse_block(toks, p2) {
                    Err(e) => Err(e),
                    Ok((b, p3)) => Ok(
                        (Block::Cons { first: Box::new(s), rest: Box::new(b) }, p3),
                    ),
                },
            }
        },
        _ => Ok((Block::Empty, p)),
    }
}

fn parse_file(toks: &Vec<Token>) -> (r: Result<SyntaxTree, SyntaxError>)
    ensures
        match r {
            Ok(tree) => spec_parse_file(toks_view(toks@)) == Ok::<BlockV, SyntaxErrorV>(
                view_tree(tree),
            ),
            Err(e) => spec_parse_file(toks_view(toks@)) == Err::<BlockV, SyntaxErrorV>(e@),
        },
{
    match parse_block(toks, 0) {
        Err(e) => Err(e),
        Ok((b, p)) => {
            if p < toks.len() && matches!(&toks[p].tok, Tok::Eof) {
                Ok(SyntaxTree { statements: b })
            } else if p < toks.len() {
                let mut expected: Vec<TokKind> = Vec::new();
                expected.push(TokKind::KwWhile);
                expected.push(TokKind::Identifier);
                expected.push(TokKind::Semicolon);
                expected.push(TokKind::Eof);
                assert(expected@ =~= seq![TokKind::KwWhile, TokKind::Identifier,
                    TokKind::Semicolon, TokKind::Eof]);
                Err(mk_err_at(toks[p].span, expected))
            } else {
                Err(mk_err_unreachable())
            }
        },
    }
}

/// Parses source text into a syntax tree: the token sequence of the text is
/// matched against the grammar, with the first violation aborting the whole
/// parse.  The result is exactly what the grammar's specification assigns
/// to the bytes of the text.
pub fn parse(input: &str) -> (r: Result<SyntaxTree, SyntaxError>)
    requires
        input.spec_bytes().len() < usize::MAX,
    ensures
        match r {
            Ok(tree) => spec_parse(input.spec_bytes()) == Ok::<BlockV, SyntaxErrorV>(
                view_tree(tree),
            ),
            Err(e) => spec_parse(input.spec_bytes()) == Err::<BlockV, SyntaxErrorV>(e@),
        },
{
    let bytes = input.as_bytes();
    match tokenize(bytes) {
        Err(e) => Err(e),
        Ok(toks) => parse_file(&toks),
    }
}

} // verus!
