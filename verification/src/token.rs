//! The tokens the lexer produces.
use vstd::prelude::*;

verus! {

/// One piece of a string literal: literal text, or the source text of an
/// interpolated expression (`$name` or `${expr}`).
#[derive(Debug, PartialEq, Eq)]
pub enum StrPart {
    Text(String),
    Expr(String),
}

/// A [`StrPart`] with its text as a mathematical sequence.
#[verifier::ext_equal]
pub enum StrPartView {
    Text(Seq<char>),
    Expr(Seq<char>),
}

impl View for StrPart {
    type V = StrPartView;

    open spec fn view(&self) -> StrPartView {
        match self {
            StrPart::Text(s) => StrPartView::Text(s@),
            StrPart::Expr(s) => StrPartView::Expr(s@),
        }
    }
}

/// A token.
///
/// A floating-point literal carries its digits (without `_` separators and
/// without a suffix) rather than a number: the reader of the token converts it.
#[derive(Debug, PartialEq, Eq)]
pub enum Tok {
    Eof,
    Int(i64),
    Float(String),
    Char(i64),
    Bool(bool),
    Str(Vec<StrPart>),
    Ident(String),
    Fun,
    Val,
    Var,
    If,
    Else,
    While,
    For,
    In,
    Return,
    Until,
    DownTo,
    Step,
    When,
    Is,
    Break,
    Continue,
    Null,
    PlusEq,
    MinusEq,
    StarEq,
    SlashEq,
    PercentEq,
    EqEq,
    NotEq,
    Le,
    Ge,
    AndAnd,
    OrOr,
    Arrow,
    DotDot,
    Plus,
    Minus,
    Star,
    Slash,
    Percent,
    Assign,
    Lt,
    Gt,
    Not,
    LParen,
    RParen,
    LBrace,
    RBrace,
    LBracket,
    RBracket,
    Comma,
    Colon,
    Semi,
    Dot,
    At,
    Question,
}

/// A [`Tok`] with its text as mathematical sequences. Every token that holds no
/// text stands for itself.
#[verifier::ext_equal]
pub enum TokView {
    Plain(Tok),
    Float(Seq<char>),
    Ident(Seq<char>),
    Str(Seq<StrPartView>),
}

impl View for Tok {
    type V = TokView;

    open spec fn view(&self) -> TokView {
        match self {
            Tok::Float(s) => TokView::Float(s@),
            Tok::Ident(s) => TokView::Ident(s@),
            Tok::Str(p) => TokView::Str(p@.map_values(|q: StrPart| q@)),
            _ => TokView::Plain(*self),
        }
    }
}

/// A token and the line it starts on, counted from 1.
#[derive(Debug, PartialEq, Eq)]
pub struct Spanned {
    pub tok: Tok,
    pub line: u32,
}

/// A [`Spanned`] as a mathematical pair.
#[verifier::ext_equal]
pub struct SpannedView {
    pub tok: TokView,
    pub line: int,
}

impl View for Spanned {
    type V = SpannedView;

    open spec fn view(&self) -> SpannedView {
        SpannedView { tok: self.tok@, line: self.line as int }
    }
}

} // verus!
