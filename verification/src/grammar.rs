use vstd::prelude::*;
use crate::ast::{
    factor_span, AssignStmtV, BlockV, ExprOp, ExpressionV, FactorV, StmtV, TermOp, TermV,
    WhileStmtV,
};
use crate::errors::SyntaxErrorV;
use crate::span::Span;
use crate::tokens::{TokKind, TokV, TokenV};

verus! {

// ---------------------------------------------------------------------------
// Lexical structure.
//
// Whitespace separates tokens and is otherwise insignificant.  A run of
// identifier bytes is a number when it is all digits, a keyword when it
// spells one, and an identifier otherwise.  `/` is excluded from identifiers
// here because the grammar uses it as the division operator; the companion
// configuration format keeps it.
// ---------------------------------------------------------------------------

pub open spec fn is_space(c: u8) -> bool {
    c == 32 || c == 10 || c == 13 || c == 9
}

pub open spec fn is_digit(c: u8) -> bool {
    48 <= c <= 57
}

pub open spec fn is_ident_byte(c: u8) -> bool {
    is_digit(c) || (65 <= c <= 90) || (97 <= c <= 122) || c == 46 || c == 95
}

pub open spec fn kw_while() -> Seq<u8> {
    seq![119u8, 104u8, 105u8, 108u8, 101u8]
}

pub open spec fn kw_true() -> Seq<u8> {
    seq![116u8, 114u8, 117u8, 101u8]
}

pub open spec fn kw_false() -> Seq<u8> {
    seq![102u8, 97u8, 108u8, 115u8, 101u8]
}

/// The first position at or after `i` that does not hold an identifier byte.
pub open spec fn run_end(s: Seq<u8>, i: int) -> int
    decreases s.len() - i,
{
    if 0 <= i < s.len() && is_ident_byte(s[i]) {
        run_end(s, i + 1)
    } else {
        i
    }
}

/// The number a digit run denotes.
pub open spec fn digits_val(w: Seq<u8>) -> int
    decreases w.len(),
{
    if w.len() == 0 {
        0
    } else {
        digits_val(w.drop_last()) * 10 + (w.last() - 48)
    }
}

pub open spec fn all_digits(w: Seq<u8>) -> bool {
    w.len() > 0 && forall|j: int| 0 <= j < w.len() ==> is_digit(w[j])
}

/// What kind of token a run of identifier bytes makes: keywords are
/// recognized before generic identifiers, digit runs are numbers.
pub open spec fn classify_word(w: Seq<u8>) -> TokV {
    if w == kw_while() {
        TokV::KwWhile
    } else if w == kw_true() {
        TokV::BooleanLit(true)
    } else if w == kw_false() {
        TokV::BooleanLit(false)
    } else if all_digits(w) {
        TokV::Number(digits_val(w) as i64)
    } else {
        TokV::Identifier(w)
    }
}

/// Position, line and column after the whitespace that starts at `i`.
pub open spec fn spec_skip_ws(s: Seq<u8>, i: int, line: int, col: int) -> (int, int, int)
    decreases s.len() - i,
{
    if 0 <= i < s.len() && is_space(s[i]) {
        if s[i] == 10 {
            spec_skip_ws(s, i + 1, line + 1, 1)
        } else {
            spec_skip_ws(s, i + 1, line, col + 1)
        }
    } else {
        (i, line, col)
    }
}

/// The token that starts at the non-space position `i`, with the position,
/// line and column just after it; or the syntax error it raises.
pub open spec fn spec_next_token(s: Seq<u8>, i: int, line: int, col: int) -> Result<
    (TokenV, int, int, int),
    SyntaxErrorV,
>
    recommends
        0 <= i < s.len(),
        !is_space(s[i]),
{
    let c = s[i];
    if is_ident_byte(c) {
        let j = run_end(s, i);
        let w = s.subrange(i, j);
        let sp = Span { start: i as usize, end: j as usize, line: line as usize, col: col as usize };
        if all_digits(w) && digits_val(w) > i64::MAX as int {
            Err(SyntaxErrorV { pos: i, line, col, expected: seq![TokKind::Number] })
        } else {
            Ok((TokenV { tok: classify_word(w), span: sp }, j, line, col + (j - i)))
        }
    } else if c == 60 || c == 62 || c == 61 {
        // '<' '>' '='
        if i + 1 < s.len() && s[i + 1] == 61 {
            let sp = Span {
                start: i as usize,
                end: (i + 2) as usize,
                line: line as usize,
                col: col as usize,
            };
            let t = if c == 60 {
                TokV::LessEq
            } else if c == 62 {
                TokV::GreaterEq
            } else {
                TokV::EqEq
            };
            Ok((TokenV { tok: t, span: sp }, i + 2, line, col + 2))
        } else {
            let sp = Span {
                start: i as usize,
                end: (i + 1) as usize,
                line: line as usize,
                col: col as usize,
            };
            let t = if c == 60 {
                TokV::Less
            } else if c == 62 {
                TokV::Greater
            } else {
                TokV::Assign
            };
            Ok((TokenV { tok: t, span: sp }, i + 1, line, col + 1))
        }
    } else {
        let sp = Span {
            start: i as usize,
            end: (i + 1) as usize,
            line: line as usize,
            col: col as usize,
        };
        let t = if c == 43 {
            Some(TokV::Plus)
        } else if c == 45 {
            Some(TokV::Minus)
        } else if c == 42 {
            Some(TokV::Star)
        } else if c == 47 {
            Some(TokV::Slash)
        } else if c == 40 {
            Some(TokV::LParen)
        } else if c == 41 {
            Some(TokV::RParen)
        } else if c == 123 {
            Some(TokV::LBrace)
        } else if c == 125 {
            Some(TokV::RBrace)
        } else if c == 59 {
            Some(TokV::Semicolon)
        } else {
            None
        };
        match t {
            Some(t) => Ok((TokenV { tok: t, span: sp }, i + 1, line, col + 1)),
            None => Err(SyntaxErrorV { pos: i, line, col, expected: Seq::empty() }),
        }
    }
}

/// The token sequence of the source from position `i` on, ending with an
/// explicit `Eof` token; or the first lexical error.
pub open spec fn spec_tokenize(s: Seq<u8>, i: int, line: int, col: int) -> Result<
    Seq<TokenV>,
    SyntaxErrorV,
>
    decreases s.len() - i,
{
    let (j, l2, c2) = spec_skip_ws(s, i, line, col);
    if !(i <= j <= s.len()) {
        // never reached: skipping whitespace moves forward through the text
        Ok(Seq::empty())
    } else if j == s.len() {
        Ok(
            seq![
                TokenV {
                    tok: TokV::Eof,
                    span: Span {
                        start: j as usize,
                        end: j as usize,
                        line: l2 as usize,
                        col: c2 as usize,
                    },
                },
            ],
        )
    } else {
        match spec_next_token(s, j, l2, c2) {
            Err(e) => Err(e),
            Ok((t, j2, l3, c3)) => {
                if !(j < j2 <= s.len()) {
                    // never reached: a token is at least one byte wide
                    Err(SyntaxErrorV { pos: 0, line: 1, col: 1, expected: Seq::empty() })
                } else {
                    match spec_tokenize(s, j2, l3, c3) {
                        Ok(rest) => Ok(seq![t] + rest),
                        Err(e) => Err(e),
                    }
                }
            },
        }
    }
}

// ---------------------------------------------------------------------------
// Syntactic structure: the grammar itself, one function per production,
// with precedence encoded structurally and same-precedence chains grouping
// to the right.  A failure reports the offending token's position and the
// token kinds that would have been accepted there.
// ---------------------------------------------------------------------------

/// A placeholder error for positions a lexer-produced token list (which
/// always ends with `Eof`) can never reach.
pub open spec fn err_unreachable() -> SyntaxErrorV {
    SyntaxErrorV { pos: 0, line: 1, col: 1, expected: Seq::empty() }
}

pub open spec fn err_at(sp: Span, expected: Seq<TokKind>) -> SyntaxErrorV {
    SyntaxErrorV {
        pos: sp.start as int,
        line: sp.line as int,
        col: sp.col as int,
        expected: expected,
    }
}

pub open spec fn is_expr_op(t: TokV) -> bool {
    t is Plus || t is Minus || t is Less || t is LessEq || t is EqEq || t is GreaterEq
        || t is Greater
}

pub open spec fn expr_op_of(t: TokV) -> ExprOp {
    match t {
        TokV::Plus => ExprOp::Add,
        TokV::Minus => ExprOp::Sub,
        TokV::Less => ExprOp::Less,
        TokV::LessEq => ExprOp::LessEq,
        TokV::EqEq => ExprOp::Equal,
        TokV::GreaterEq => ExprOp::GreaterEq,
        _ => ExprOp::Greater,
    }
}

pub open spec fn is_term_op(t: TokV) -> bool {
    t is Star || t is Slash
}

pub open spec fn term_op_of(t: TokV) -> TermOp {
    match t {
        TokV::Star => TermOp::Mul,
        _ => TermOp::Div,
    }
}

/// factor = "(" expression ")" | number | boolean | identifier
pub open spec fn spec_parse_factor(toks: Seq<TokenV>, p: int) -> Result<
    (FactorV, int),
    SyntaxErrorV,
>
    decreases toks.len() - p, 0int,
{
    if !(0 <= p < toks.len()) {
        Err(err_unreachable())
    } else {
        let t = toks[p];
        match t.tok {
            TokV::Number(n) => Ok((FactorV::Number { value: n, span: t.span }, p + 1)),
            TokV::BooleanLit(b) => Ok((FactorV::BooleanLit { value: b, span: t.span }, p + 1)),
            TokV::Identifier(name) => Ok((FactorV::Variable { name, span: t.span }, p + 1)),
            TokV::LParen => match spec_parse_expression(toks, p + 1) {
                Err(e) => Err(e),
                Ok((inner, p2)) => if 0 <= p2 < toks.len() && toks[p2].tok is RParen {
                    Ok(
                        (
                            FactorV::Paren {
                                inner: Box::new(inner),
                                span: Span {
                                    start: t.span.start,
                                    end: toks[p2].span.end,
                                    line: t.span.line,
                                    col: t.span.col,
                                },
                            },
                            p2 + 1,
                        ),
                    )
                } else if 0 <= p2 < toks.len() {
                    Err(err_at(toks[p2].span, seq![TokKind::RParen]))
                } else {
                    Err(err_unreachable())
                },
            },
            _ => Err(
                err_at(
                    t.span,
                    seq![TokKind::LParen, TokKind::Number, TokKind::BooleanLit,
                        TokKind::Identifier],
                ),
            ),
        }
    }
}

/// term = factor (term_op term)? — the trailing part groups to the right.
pub open spec fn spec_parse_term(toks: Seq<TokenV>, p: int) -> Result<(TermV, int), SyntaxErrorV>
    decreases toks.len() - p, 1int,
{
    match spec_parse_factor(toks, p) {
        Err(e) => Err(e),
        Ok((f, p2)) => if 0 <= p2 < toks.len() && is_term_op(toks[p2].tok) && p < p2 {
            let op = term_op_of(toks[p2].tok);
            match spec_parse_term(toks, p2 + 1) {
                Err(e) => Err(e),
                Ok((rt, p3)) => {
                    let fsp = factor_span(f);
                    Ok(
                        (
                            TermV {
                                factor: f,
                                rest: Some((op, Box::new(rt))),
                                span: Span {
                                    start: fsp.start,
                                    end: rt.span.end,
                                    line: fsp.line,
                                    col: fsp.col,
                                },
                            },
                            p3,
                        ),
                    )
                },
            }
        } else {
            Ok((TermV { factor: f, rest: None, span: factor_span(f) }, p2))
        },
    }
}

/// expression = term (expr_op expression)? — the trailing part groups to
/// the right.
pub open spec fn spec_parse_expression(toks: Seq<TokenV>, p: int) -> Result<
    (ExpressionV, int),
    SyntaxErrorV,
>
    decreases toks.len() - p, 2int,
{
    match spec_parse_term(toks, p) {
        Err(e) => Err(e),
        Ok((lt, p2)) => if 0 <= p2 < toks.len() && is_expr_op(toks[p2].tok) && p < p2 {
            let op = expr_op_of(toks[p2].tok);
            match spec_parse_expression(toks, p2 + 1) {
                Err(e) => Err(e),
                Ok((re, p3)) => Ok(
                    (
                        ExpressionV {
                            term: lt,
                            rest: Some((op, Box::new(re))),
                            span: Span {
                                start: lt.span.start,
                                end: re.span.end,
                                line: lt.span.line,
                                col: lt.span.col,
                            },
                        },
                        p3,
                    ),
                ),
            }
        } else {
            Ok((ExpressionV { term: lt, rest: None, span: lt.span }, p2))
        },
    }
}

/// statement = while_stmt | assign_stmt
pub open spec fn spec_parse_statement(toks: Seq<TokenV>, p: int) -> Result<
    (StmtV, int),
    SyntaxErrorV,
>
    decreases toks.len() - p, 3int,
{
    if !(0 <= p < toks.len()) {
        Err(err_unreachable())
    } else {
        let t = toks[p];
        match t.tok {
            TokV::KwWhile => match spec_parse_expression(toks, p + 1) {
                Err(e) => Err(e),
                Ok((cond, p2)) => if 0 <= p2 < toks.len() && toks[p2].tok is LBrace && p < p2 {
                    match spec_parse_block(toks, p2 + 1) {
                        Err(e) => Err(e),
                        Ok((body, p3)) => if 0 <= p3 < toks.len() && toks[p3].tok is RBrace {
                            Ok(
                                (
                                    StmtV::While(
                                        WhileStmtV {
                                            cond,
                                            body,
                                            span: Span {
                                                start: t.span.start,
                                                end: toks[p3].span.end,
                                                line: t.span.line,
                                                col: t.span.col,
                                            },
                                        },
                                    ),
                                    p3 + 1,
                                ),
                            )
                        } else if 0 <= p3 < toks.len() {
                            Err(
                                err_at(
                                    toks[p3].span,
                                    seq![TokKind::RBrace, TokKind::KwWhile, TokKind::Identifier,
                                        TokKind::Semicolon],
                                ),
                            )
                        } else {
                            Err(err_unreachable())
                        },
                    }
                } else if 0 <= p2 < toks.len() {
                    Err(err_at(toks[p2].span, seq![TokKind::LBrace]))
                } else {
                    Err(err_unreachable())
                },
            },
            TokV::Identifier(name) => if p + 1 < toks.len() && toks[p + 1].tok is Assign {
                match spec_parse_expression(toks, p + 2) {
                    Err(e) => Err(e),
                    Ok((e0, p2)) => Ok(
                        (
                            StmtV::Assign(
                                AssignStmtV {
                                    name,
                                    name_span: t.span,
                                    expr: e0,
                                    span: Span {
                                        start: t.span.start,
                                        end: e0.span.end,
                                        line: t.span.line,
                                        col: t.span.col,
                                    },
                                },
                            ),
                            p2,
                        ),
                    ),
                }
            } else if p + 1 < toks.len() {
                Err(err_at(toks[p + 1].span, seq![TokKind::Assign]))
            } else {
                Err(err_unreachable())
            },
            _ => Err(err_at(t.span, seq![TokKind::KwWhile, TokKind::Identifier])),
        }
    }
}

/// statement*, with `;` accepted between statements; stops in front of the
/// first token that cannot start a statement.
pub open spec fn spec_parse_block(toks: Seq<TokenV>, p: int) -> Result<(BlockV, int), SyntaxErrorV>
    decreases toks.len() - p, 4int,
{
    if !(0 <= p < toks.len()) {
        Ok((BlockV::Empty, p))
    } else {
        let t = toks[p];
        if t.tok is Semicolon {
            spec_parse_block(toks, p + 1)
        } else if t.tok is KwWhile || t.tok matches TokV::Identifier(_) {
            match spec_parse_statement(toks, p) {
                Err(e) => Err(e),
                Ok((s, p2)) => if p < p2 <= toks.len() {
                    match spec_parse_block(toks, p2) {
                        Err(e) => Err(e),
                        Ok((b, p3)) => Ok(
                            (BlockV::Cons { first: Box::new(s), rest: Box::new(b) }, p3),
                        ),
                    }
                } else {
                    Err(err_unreachable())
                },
            }
        } else {
            Ok((BlockV::Empty, p))
        }
    }
}

/// file = statement* EOF
pub open spec fn spec_parse_file(toks: Seq<TokenV>) -> Result<BlockV, SyntaxErrorV> {
    match spec_parse_block(toks, 0) {
        Err(e) => Err(e),
        Ok((b, p)) => if 0 <= p < toks.len() && toks[p].tok is Eof {
            Ok(b)
        } else if 0 <= p < toks.len() {
            Err(
                err_at(
                    toks[p].span,
                    seq![TokKind::KwWhile, TokKind::Identifier, TokKind::Semicolon, TokKind::Eof],
                ),
            )
        } else {
            Err(err_unreachable())
        },
    }
}

/// What parsing the whole source text yields: its token sequence fed to the
/// file production.
pub open spec fn spec_parse(s: Seq<u8>) -> Result<BlockV, SyntaxErrorV> {
    match spec_tokenize(s, 0, 1, 1) {
        Err(e) => Err(e),
        Ok(toks) => spec_parse_file(toks),
    }
}

} // verus!
