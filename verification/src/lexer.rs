use vstd::prelude::*;
use crate::errors::SyntaxError;
use crate::grammar::{
    all_digits, digits_val, is_digit, is_ident_byte, is_space, kw_false, kw_true, kw_while,
    run_end, spec_next_token, spec_skip_ws, spec_tokenize,
};
use crate::errors::SyntaxErrorV;
use crate::span::Span;
use crate::tokens::{toks_view, Tok, TokKind, Token, TokenV};

verus! {

fn is_space_b(c: u8) -> (r: bool)
    ensures
        r == is_space(c),
{
    c == 32 || c == 10 || c == 13 || c == 9
}

fn is_digit_b(c: u8) -> (r: bool)
    ensures
        r == is_digit(c),
{
    48 <= c && c <= 57
}

fn is_ident_b(c: u8) -> (r: bool)
    ensures
        r == is_ident_byte(c),
{
    is_digit_b(c) || (65 <= c && c <= 90) || (97 <= c && c <= 122) || c == 46 || c == 95
}

proof fn lemma_skip_ws_bounds(s: Seq<u8>, i: int, line: int, col: int)
    requires
        0 <= i <= s.len(),
    ensures
        i <= spec_skip_ws(s, i, line, col).0 <= s.len(),
    decreases s.len() - i,
{
    if i < s.len() && is_space(s[i]) {
        if s[i] == 10 {
            lemma_skip_ws_bounds(s, i + 1, line + 1, 1);
        } else {
            lemma_skip_ws_bounds(s, i + 1, line, col + 1);
        }
    }
}

proof fn lemma_run_end_is(s: Seq<u8>, i: int, k: int)
    requires
        0 <= i <= k <= s.len(),
        forall|m: int| i <= m < k ==> is_ident_byte(s[m]),
        k == s.len() || !is_ident_byte(s[k]),
    ensures
        run_end(s, i) == k,
    decreases k - i,
{
    if i < k {
        lemma_run_end_is(s, i + 1, k);
    }
}

proof fn lemma_digits_val_nonneg(w: Seq<u8>)
    requires
        forall|j: int| 0 <= j < w.len() ==> is_digit(w[j]),
    ensures
        digits_val(w) >= 0,
    decreases w.len(),
{
    if w.len() > 0 {
        lemma_digits_val_nonneg(w.drop_last());
    }
}

proof fn lemma_digits_prefix_le(w: Seq<u8>, k: int)
    requires
        0 <= k <= w.len(),
        forall|j: int| 0 <= j < w.len() ==> is_digit(w[j]),
    ensures
        digits_val(w.subrange(0, k)) <= digits_val(w),
    decreases w.len() - k,
{
    if k == w.len() {
        assert(w.subrange(0, k) =~= w);
    } else {
        assert(w.subrange(0, k + 1).drop_last() =~= w.subrange(0, k));
        assert(w.subrange(0, k + 1).last() == w[k]);
        lemma_digits_val_nonneg(w.subrange(0, k));
        lemma_digits_prefix_le(w, k + 1);
    }
}

fn word_of(src: &[u8], i: usize, j: usize) -> (w: Vec<u8>)
    requires
        i <= j <= src@.len(),
    ensures
        w@ == src@.subrange(i as int, j as int),
{
    let mut w: Vec<u8> = Vec::new();
    let mut k: usize = i;
    while k < j
        invariant
            i <= k <= j <= src@.len(),
            w@ == src@.subrange(i as int, k as int),
        decreases j - k,
    {
        w.push(src[k]);
        proof {
            assert(src@.subrange(i as int, (k + 1) as int) =~= src@.subrange(i as int, k as int)
                .push(src@[k as int]));
        }
        k = k + 1;
    }
    w
}

fn check_all_digits(w: &Vec<u8>) -> (r: bool)
    ensures
        r == all_digits(w@),
{
    if w.len() == 0 {
        return false;
    }
    let n = w.len();
    let mut k: usize = 0;
    while k < n
        invariant
            k <= n == w@.len(),
            forall|j: int| 0 <= j < k ==> is_digit(w@[j]),
        decreases n - k,
    {
        if !is_digit_b(w[k]) {
            return false;
        }
        k = k + 1;
    }
    true
}

fn digits_to_i64(w: &Vec<u8>) -> (r: Option<i64>)
    requires
        all_digits(w@),
    ensures
        match r {
            Some(v) => digits_val(w@) <= i64::MAX as int && v as int == digits_val(w@),
            None => digits_val(w@) > i64::MAX as int,
        },
{
    let n = w.len();
    let mut acc: i64 = 0;
    let mut k: usize = 0;
    while k < n
        invariant
            all_digits(w@),
            k <= n == w@.len(),
            0 <= acc,
            acc as int == digits_val(w@.subrange(0, k as int)),
        decreases n - k,
    {
        proof {
            assert(w@.subrange(0, (k + 1) as int).drop_last() =~= w@.subrange(0, k as int));
            assert(w@.subrange(0, (k + 1) as int).last() == w@[k as int]);
        }
        let d = w[k] - 48;
        let acc2 = match acc.checked_mul(10) {
            Some(x) => match x.checked_add(d as i64) {
                Some(y) => y,
                None => {
                    proof {
                        lemma_digits_prefix_le(w@, (k + 1) as int);
                    }
                    return None;
                },
            },
            None => {
                proof {
                    lemma_digits_val_nonneg(w@.subrange(0, (k + 1) as int));
                    lemma_digits_prefix_le(w@, (k + 1) as int);
                }
                return None;
            },
        };
        acc = acc2;
        k = k + 1;
    }
    proof {
        assert(w@.subrange(0, n as int) =~= w@);
    }
    Some(acc)
}

fn is_kw_while(w: &Vec<u8>) -> (r: bool)
    ensures
        r == (w@ == kw_while()),
{
    if w.len() != 5 {
        assert(w@ != kw_while());
        return false;
    }
    if w[0] == 119 && w[1] == 104 && w[2] == 105 && w[3] == 108 && w[4] == 101 {
        assert(w@ =~= kw_while());
        true
    } else {
        assert(w@ != kw_while());
        false
    }
}

fn is_kw_true(w: &Vec<u8>) -> (r: bool)
    ensures
        r == (w@ == kw_true()),
{
    if w.len() != 4 {
        assert(w@ != kw_true());
        return false;
    }
    if w[0] == 116 && w[1] == 114 && w[2] == 117 && w[3] == 101 {
        assert(w@ =~= kw_true());
        true
    } else {
        assert(w@ != kw_true());
        false
    }
}

fn is_kw_false(w: &Vec<u8>) -> (r: bool)
    ensures
        r == (w@ == kw_false()),
{
    if w.len() != 5 {
        assert(w@ != kw_false());
        return false;
    }
    if w[0] == 102 && w[1] == 97 && w[2] == 108 && w[3] == 115 && w[4] == 101 {
        assert(w@ =~= kw_false());
        true
    } else {
        assert(w@ != kw_false());
        false
    }
}

/// Reads the one token that starts at the non-space position `i`.
fn next_token(src: &[u8], i: usize, line: usize, col: usize) -> (r: Result<
    (Token, usize, usize, usize),
    SyntaxError,
>)
    requires
        i < src@.len() < usize::MAX,
        !is_space(src@[i as int]),
        1 <= line <= i + 1,
        1 <= col <= i + 1,
    ensures
        match r {
            Ok((t, ni, nl, nc)) => spec_next_token(src@, i as int, line as int, col as int)
                == Ok::<(TokenV, int, int, int), SyntaxErrorV>(
                (t@, ni as int, nl as int, nc as int),
            ) && i < ni <= src@.len() && 1 <= nl <= ni + 1 && 1 <= nc <= ni + 1,
            Err(e) => spec_next_token(src@, i as int, line as int, col as int) == Err::<
                (TokenV, int, int, int),
                SyntaxErrorV,
            >(e@),
        },
{
    let n = src.len();
    let c = src[i];
    if is_ident_b(c) {
        let mut j = i + 1;
        while j < n && is_ident_b(src[j])
            invariant
                i < j <= n == src@.len(),
                forall|m: int| i <= m < j ==> is_ident_byte(src@[m]),
            decreases n - j,
        {
            j = j + 1;
        }
        proof {
            lemma_run_end_is(src@, i as int, j as int);
        }
        let w = word_of(src, i, j);
        let sp = Span { start: i, end: j, line, col };
        if is_kw_while(&w) {
            proof {
                assert(!all_digits(w@)) by {
                    assert(w@[0] == 119);
                }
            }
            return Ok((Token { tok: Tok::KwWhile, span: sp }, j, line, col + (j - i)));
        }
        if is_kw_true(&w) {
            proof {
                assert(!all_digits(w@)) by {
                    assert(w@[0] == 116);
                }
            }
            return Ok((Token { tok: Tok::BooleanLit(true), span: sp }, j, line, col + (j - i)));
        }
        if is_kw_false(&w) {
            proof {
                assert(!all_digits(w@)) by {
                    assert(w@[0] == 102);
                }
            }
            return Ok((Token { tok: Tok::BooleanLit(false), span: sp }, j, line, col + (j - i)));
        }
        if check_all_digits(&w) {
            match digits_to_i64(&w) {
                Some(v) => {
                    return Ok((Token { tok: Tok::Number(v), span: sp }, j, line, col + (j - i)));
                },
                None => {
                    let mut expected: Vec<TokKind> = Vec::new();
                    expected.push(TokKind::Number);
                    assert(expected@ =~= seq![TokKind::Number]);
                    return Err(SyntaxError { pos: i, line, col, expected });
                },
            }
        }
        Ok((Token { tok: Tok::Identifier(w), span: sp }, j, line, col + (j - i)))
    } else if c == 60 || c == 62 || c == 61 {
        if i + 1 < n && src[i + 1] == 61 {
            let t = if c == 60 {
                Tok::LessEq
            } else if c == 62 {
                Tok::GreaterEq
            } else {
                Tok::EqEq
            };
            Ok((Token { tok: t, span: Span { start: i, end: i + 2, line, col } }, i + 2, line, col
                + 2))
        } else {
            let t = if c == 60 {
                Tok::Less
            } else if c == 62 {
                Tok::Greater
            } else {
                Tok::Assign
            };
            Ok((Token { tok: t, span: Span { start: i, end: i + 1, line, col } }, i + 1, line, col
                + 1))
        }
    } else {
        let sp = Span { start: i, end: i + 1, line, col };
        let t = if c == 43 {
            Some(Tok::Plus)
        } else if c == 45 {
            Some(Tok::Minus)
        } else if c == 42 {
            Some(Tok::Star)
        } else if c == 47 {
            Some(Tok::Slash)
        } else if c == 40 {
            Some(Tok::LParen)
        } else if c == 41 {
            Some(Tok::RParen)
        } else if c == 123 {
            Some(Tok::LBrace)
        } else if c == 125 {
            Some(Tok::RBrace)
        } else if c == 59 {
            Some(Tok::Semicolon)
        } else {
            None
        };
        match t {
            Some(t) => Ok((Token { tok: t, span: sp }, i + 1, line, col + 1)),
            None => Err(SyntaxError { pos: i, line, col, expected: Vec::new() }),
        }
    }
}

/// Splits the source bytes into their token sequence, ending with an `Eof`
/// token; or reports the first lexical error.
pub fn tokenize(src: &[u8]) -> (r: Result<Vec<Token>, SyntaxError>)
    requires
        src@.len() < usize::MAX,
    ensures
        match r {
            Ok(ts) => spec_tokenize(src@, 0, 1, 1) == Ok::<Seq<TokenV>, SyntaxErrorV>(
                toks_view(ts@),
            ),
            Err(e) => spec_tokenize(src@, 0, 1, 1) == Err::<Seq<TokenV>, SyntaxErrorV>(e@),
        },
{
    let n = src.len();
    let mut toks: Vec<Token> = Vec::new();
    let mut i: usize = 0;
    let mut line: usize = 1;
    let mut col: usize = 1;
    loop
        invariant
            n == src@.len() < usize::MAX,
            i <= n,
            1 <= line <= i + 1,
            1 <= col <= i + 1,
            spec_tokenize(src@, 0, 1, 1) == (match spec_tokenize(
                src@,
                i as int,
                line as int,
                col as int,
            ) {
                Ok(rest) => Ok::<Seq<TokenV>, SyntaxErrorV>(toks_view(toks@) + rest),
                Err(e) => Err::<Seq<TokenV>, SyntaxErrorV>(e),
            }),
        decreases n - i,
    {
        if i < n && is_space_b(src[i]) {
            proof {
                assert(spec_skip_ws(src@, i as int, line as int, col as int) == (if src@[i as int]
                    == 10 {
                    spec_skip_ws(src@, i as int + 1, line as int + 1, 1)
                } else {
                    spec_skip_ws(src@, i as int + 1, line as int, col as int + 1)
                }));
            }
            let ghost oi = i as int;
            let ghost ol = line as int;
            let ghost oc = col as int;
            if src[i] == 10 {
                line = line + 1;
                col = 1;
            } else {
                col = col + 1;
            }
            i = i + 1;
            proof {
                assert(spec_skip_ws(src@, oi, ol, oc) == spec_skip_ws(
                    src@,
                    i as int,
                    line as int,
                    col as int,
                ));
                lemma_skip_ws_bounds(src@, i as int, line as int, col as int);
                assert(spec_tokenize(src@, oi, ol, oc) == spec_tokenize(
                    src@,
                    i as int,
                    line as int,
                    col as int,
                ));
            }
        } else if i == n {
            let t = Token { tok: Tok::Eof, span: Span { start: i, end: i, line, col } };
            let ghost pre = toks@;
            toks.push(t);
            proof {
                assert(spec_skip_ws(src@, i as int, line as int, col as int) == (
                    i as int,
                    line as int,
                    col as int,
                ));
                assert(toks_view(toks@) =~= toks_view(pre).push(t@));
                assert(toks_view(pre) + seq![t@] =~= toks_view(toks@));
            }
            return Ok(toks);
        } else {
            match next_token(src, i, line, col) {
                Err(e) => {
                    return Err(e);
                },
                Ok((t, ni, nline, ncol)) => {
                    let ghost pre = toks@;
                    toks.push(t);
                    proof {
                        assert(spec_skip_ws(src@, i as int, line as int, col as int) == (
                            i as int,
                            line as int,
                            col as int,
                        ));
                        assert(toks_view(toks@) =~= toks_view(pre).push(t@));
                        let si = spec_tokenize(src@, i as int, line as int, col as int);
                        let sn = spec_tokenize(src@, ni as int, nline as int, ncol as int);
                        match sn {
                            Ok(rest) => {
                                assert(si == Ok::<Seq<TokenV>, SyntaxErrorV>(seq![t@] + rest));
                                assert(toks_view(pre) + (seq![t@] + rest) =~= toks_view(toks@)
                                    + rest);
                            },
                            Err(e) => {
                                assert(si == Err::<Seq<TokenV>, SyntaxErrorV>(e));
                            },
                        }
                    }
                    i = ni;
                    line = nline;
                    col = ncol;
                },
            }
        }
    }
}

} // verus!
