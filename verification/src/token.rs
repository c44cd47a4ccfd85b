//! The token family: a closed tagged union of every lexeme class the scanner
//! can produce, each stamped with its starting position, together with the
//! ghost-level kind used to state what the scanner returns.

use vstd::prelude::*;

use crate::position::PosInfo;

verus! {

/// A payload-carrying token body: the value read from the source plus the
/// position of its first character.
#[derive(Debug, PartialEq, Clone)]
pub struct ValueInfo<V> {
    pub info: PosInfo,
    pub v: V,
}

impl ValueInfo<String> {
    /// An exact copy; unlike a derived clone, its contract says so.
    pub fn duplicate(&self) -> (r: ValueInfo<String>)
        ensures
            r == *self,
    {
        ValueInfo { info: self.info, v: self.v.clone() }
    }
}

impl ValueInfo<u64> {
    /// An exact copy; unlike a derived clone, its contract says so.
    pub fn duplicate(&self) -> (r: ValueInfo<u64>)
        ensures
            r == *self,
    {
        ValueInfo { info: self.info, v: self.v }
    }
}

/// A scanned token. Identifiers, integer and string literals carry their
/// value; every fixed punctuation or keyword tag still carries its position
/// for diagnostics; `Error` marks an unrecognized slice (carrying it and its
/// position) and is yielded rather than aborting the scan. `Comment` never
/// reaches a consumer: comments are discarded by the scanner.
#[derive(Debug, PartialEq, Clone)]
pub enum Token {
    Comment,
    Id(ValueInfo<String>),
    String(ValueInfo<String>),
    Int(ValueInfo<u64>),
    Comma(PosInfo),
    Colon(PosInfo),
    Semicolon(PosInfo),
    Lparen(PosInfo),
    Rparen(PosInfo),
    Lbrack(PosInfo),
    Rbrack(PosInfo),
    Lbrace(PosInfo),
    Rbrace(PosInfo),
    Dot(PosInfo),
    Plus(PosInfo),
    Minus(PosInfo),
    Times(PosInfo),
    Divide(PosInfo),
    Eq(PosInfo),
    Neq(PosInfo),
    Lt(PosInfo),
    Le(PosInfo),
    Gt(PosInfo),
    Ge(PosInfo),
    And(PosInfo),
    Or(PosInfo),
    Assign(PosInfo),
    Array(PosInfo),
    If(PosInfo),
    Then(PosInfo),
    Else(PosInfo),
    While(PosInfo),
    For(PosInfo),
    To(PosInfo),
    Do(PosInfo),
    Let(PosInfo),
    In(PosInfo),
    End(PosInfo),
    Of(PosInfo),
    Break(PosInfo),
    Nil(PosInfo),
    Function(PosInfo),
    Var(PosInfo),
    Type(PosInfo),
    Error(ValueInfo<String>),
}

/// The ghost-level classification of a token: what it is and what value it
/// carries, independent of where it sits in the source.
pub enum TokKind {
    Note,
    Id(Seq<char>),
    IntLit(int),
    StrLit(Seq<char>),
    Wrong(Seq<char>),
    Comma,
    Colon,
    Semicolon,
    Lparen,
    Rparen,
    Lbrack,
    Rbrack,
    Lbrace,
    Rbrace,
    Dot,
    Plus,
    Minus,
    Times,
    Divide,
    Eq,
    Neq,
    Lt,
    Le,
    Gt,
    Ge,
    And,
    Or,
    Assign,
    Array,
    If,
    Then,
    Else,
    While,
    For,
    To,
    Do,
    Let,
    In,
    End,
    Of,
    Break,
    Nil,
    Function,
    Var,
    Type,
}

/// A token as the scanner's specification sees it: its kind and the offset of
/// its first character in the source.
pub struct Lexeme {
    pub start: int,
    pub kind: TokKind,
}

/// The position stamped on a token together with its ghost-level kind.
pub open spec fn tok_view(t: Token) -> (PosInfo, TokKind) {
    match t {
        Token::Comment => (PosInfo { line: 0, col: 0 }, TokKind::Note),
        Token::Id(vi) => (vi.info, TokKind::Id(vi.v@)),
        Token::String(vi) => (vi.info, TokKind::StrLit(vi.v@)),
        Token::Int(vi) => (vi.info, TokKind::IntLit(vi.v as int)),
        Token::Error(vi) => (vi.info, TokKind::Wrong(vi.v@)),
        Token::Comma(p) => (p, TokKind::Comma),
        Token::Colon(p) => (p, TokKind::Colon),
        Token::Semicolon(p) => (p, TokKind::Semicolon),
        Token::Lparen(p) => (p, TokKind::Lparen),
        Token::Rparen(p) => (p, TokKind::Rparen),
        Token::Lbrack(p) => (p, TokKind::Lbrack),
        Token::Rbrack(p) => (p, TokKind::Rbrack),
        Token::Lbrace(p) => (p, TokKind::Lbrace),
        Token::Rbrace(p) => (p, TokKind::Rbrace),
        Token::Dot(p) => (p, TokKind::Dot),
        Token::Plus(p) => (p, TokKind::Plus),
        Token::Minus(p) => (p, TokKind::Minus),
        Token::Times(p) => (p, TokKind::Times),
        Token::Divide(p) => (p, TokKind::Divide),
        Token::Eq(p) => (p, TokKind::Eq),
        Token::Neq(p) => (p, TokKind::Neq),
        Token::Lt(p) => (p, TokKind::Lt),
        Token::Le(p) => (p, TokKind::Le),
        Token::Gt(p) => (p, TokKind::Gt),
        Token::Ge(p) => (p, TokKind::Ge),
        Token::And(p) => (p, TokKind::And),
        Token::Or(p) => (p, TokKind::Or),
        Token::Assign(p) => (p, TokKind::Assign),
        Token::Array(p) => (p, TokKind::Array),
        Token::If(p) => (p, TokKind::If),
        Token::Then(p) => (p, TokKind::Then),
        Token::Else(p) => (p, TokKind::Else),
        Token::While(p) => (p, TokKind::While),
        Token::For(p) => (p, TokKind::For),
        Token::To(p) => (p, TokKind::To),
        Token::Do(p) => (p, TokKind::Do),
        Token::Let(p) => (p, TokKind::Let),
        Token::In(p) => (p, TokKind::In),
        Token::End(p) => (p, TokKind::End),
        Token::Of(p) => (p, TokKind::Of),
        Token::Break(p) => (p, TokKind::Break),
        Token::Nil(p) => (p, TokKind::Nil),
        Token::Function(p) => (p, TokKind::Function),
        Token::Var(p) => (p, TokKind::Var),
        Token::Type(p) => (p, TokKind::Type),
    }
}

/// Classifies a word: the fixed keyword spellings are reserved and take
/// priority over the generic identifier class for identical spellings.
pub open spec fn kw_or_id(t: Seq<char>) -> TokKind {
    if t == "array"@ {
        TokKind::Array
    } else if t == "if"@ {
        TokKind::If
    } else if t == "then"@ {
        TokKind::Then
    } else if t == "else"@ {
        TokKind::Else
    } else if t == "while"@ {
        TokKind::While
    } else if t == "for"@ {
        TokKind::For
    } else if t == "to"@ {
        TokKind::To
    } else if t == "do"@ {
        TokKind::Do
    } else if t == "let"@ {
        TokKind::Let
    } else if t == "in"@ {
        TokKind::In
    } else if t == "end"@ {
        TokKind::End
    } else if t == "of"@ {
        TokKind::Of
    } else if t == "break"@ {
        TokKind::Break
    } else if t == "nil"@ {
        TokKind::Nil
    } else if t == "function"@ {
        TokKind::Function
    } else if t == "var"@ {
        TokKind::Var
    } else if t == "type"@ {
        TokKind::Type
    } else {
        TokKind::Id(t)
    }
}

} // verus!
