use vstd::prelude::*;
use crate::span::Span;

verus! {

/// The kind of a token, as reported in the expected set of a syntax error.
#[derive(Debug, Clone, Copy, PartialEq, Eq, Structural)]
pub enum TokKind {
    Identifier,
    Number,
    BooleanLit,
    KwWhile,
    Assign,
    Plus,
    Minus,
    Star,
    Slash,
    Less,
    LessEq,
    EqEq,
    GreaterEq,
    Greater,
    LBrace,
    RBrace,
    LParen,
    RParen,
    Semicolon,
    Eof,
}

/// A token together with the payload it carries.
#[derive(Debug)]
pub enum Tok {
    Identifier(Vec<u8>),
    Number(i64),
    BooleanLit(bool),
    KwWhile,
    Assign,
    Plus,
    Minus,
    Star,
    Slash,
    Less,
    LessEq,
    EqEq,
    GreaterEq,
    Greater,
    LBrace,
    RBrace,
    LParen,
    RParen,
    Semicolon,
    Eof,
}

/// A token of the source text, with the span it was read from.
#[derive(Debug)]
pub struct Token {
    pub tok: Tok,
    pub span: Span,
}

/// Mathematical image of `Tok`: identifiers carry their bytes as a sequence.
pub enum TokV {
    Identifier(Seq<u8>),
    Number(i64),
    BooleanLit(bool),
    KwWhile,
    Assign,
    Plus,
    Minus,
    Star,
    Slash,
    Less,
    LessEq,
    EqEq,
    GreaterEq,
    Greater,
    LBrace,
    RBrace,
    LParen,
    RParen,
    Semicolon,
    Eof,
}

/// Mathematical image of `Token`.
pub struct TokenV {
    pub tok: TokV,
    pub span: Span,
}

impl View for Tok {
    type V = TokV;

    open spec fn view(&self) -> TokV {
        match *self {
            Tok::Identifier(name) => TokV::Identifier(name@),
            Tok::Number(n) => TokV::Number(n),
            Tok::BooleanLit(b) => TokV::BooleanLit(b),
            Tok::KwWhile => TokV::KwWhile,
            Tok::Assign => TokV::Assign,
            Tok::Plus => TokV::Plus,
            Tok::Minus => TokV::Minus,
            Tok::Star => TokV::Star,
            Tok::Slash => TokV::Slash,
            Tok::Less => TokV::Less,
            Tok::LessEq => TokV::LessEq,
            Tok::EqEq => TokV::EqEq,
            Tok::GreaterEq => TokV::GreaterEq,
            Tok::Greater => TokV::Greater,
            Tok::LBrace => TokV::LBrace,
            Tok::RBrace => TokV::RBrace,
            Tok::LParen => TokV::LParen,
            Tok::RParen => TokV::RParen,
            Tok::Semicolon => TokV::Semicolon,
            Tok::Eof => TokV::Eof,
        }
    }
}

impl View for Token {
    type V = TokenV;

    open spec fn view(&self) -> TokenV {
        TokenV { tok: self.tok@, span: self.span }
    }
}

/// The view of a whole token vector.
pub open spec fn toks_view(toks: Seq<Token>) -> Seq<TokenV> {
    Seq::new(toks.len(), |i: int| toks[i]@)
}

} // verus!
