//! The grammar model: a closed family of AST variants, one shape per
//! production. Conditional and loop forms are split into the *matched*
//! (closed: both branches present, safe to nest) and *unmatched* (open: a
//! trailing then-only branch) families, so that the dangling-else ambiguity
//! is resolved by the shapes themselves: every position that a later token of
//! an enclosing construct can follow has type `Match`, and only the rightmost
//! position of a statement admits `Unmatch`.
//!
//! Each node's `flat_*` function gives the token kinds the node stands for;
//! the parser's contract says a parse tree flattens back to exactly the
//! scanned tokens.

use vstd::prelude::*;

use crate::token::{TokKind, ValueInfo};

verus! {

/// A declaration list inside `let`.
#[derive(Debug, PartialEq)]
pub enum Decs {
    Empty,
    Decs(Box<Dec>, Box<Decs>),
}

/// One declaration: a type, variable, or function declaration.
#[derive(Debug, PartialEq)]
pub enum Dec {
    TypeDec(Box<TypeDec>),
    VarDec(Box<VarDec>),
    FunDec(Box<FunDec>),
}

/// A type declaration: `type id = ty`.
#[derive(Debug, PartialEq)]
pub enum TypeDec {
    Dec(ValueInfo<String>, Box<Ty>),
}

/// A type expression: a named type, a record field list, or an array type.
#[derive(Debug, PartialEq)]
pub enum Ty {
    Id(ValueInfo<String>),
    Fields(Box<TyFields>),
    Array(ValueInfo<String>),
}

/// A possibly empty record field list.
#[derive(Debug, PartialEq)]
pub enum TyFields {
    Empty,
    Filled(Box<SomeTyFields>),
}

/// A non-empty record field list: `id : type_id`, comma separated.
#[derive(Debug, PartialEq)]
pub enum SomeTyFields {
    Last { id: ValueInfo<String>, type_id: ValueInfo<String> },
    List { id: ValueInfo<String>, type_id: ValueInfo<String>, tail: Box<SomeTyFields> },
}

/// A variable declaration, with or without a type annotation.
#[derive(Debug, PartialEq)]
pub enum VarDec {
    DefaultInit(ValueInfo<String>, Box<Exp>),
    TypeInit { var_id: ValueInfo<String>, type_id: ValueInfo<String>, exp: Box<Exp> },
}

/// A function declaration: a procedure or a typed function.
#[derive(Debug, PartialEq)]
pub enum FunDec {
    Proc(ValueInfo<String>, Box<TyFields>, Box<Exp>),
    Func { id: ValueInfo<String>, fields: Box<TyFields>, type_id: ValueInfo<String>, exp: Box<Exp> },
}

/// A possibly empty expression sequence.
#[derive(Debug, PartialEq)]
pub enum ExpSeq {
    Empty,
    Filled(Box<SomeExpSeq>),
}

/// A non-empty, semicolon-separated expression sequence.
#[derive(Debug, PartialEq)]
pub enum SomeExpSeq {
    Last(Box<Exp>),
    List(Box<Exp>, Box<SomeExpSeq>),
}

/// An expression: either a closed (matched) form or an open (unmatched) one.
/// `Error` is a placeholder shape for consumers that record a failed parse;
/// the parser itself never builds it.
#[derive(Debug, PartialEq)]
pub enum Exp {
    Match(Box<Match>),
    Unmatch(Box<Unmatch>),
    Error,
}

/// A closed expression: every embedded conditional has both branches, so the
/// form is safe to nest inside another conditional's `then` position.
#[derive(Debug, PartialEq)]
pub enum Match {
    IfThenElse { if_exp: Box<Exp>, then_exp: Box<Match>, else_exp: Box<Match> },
    While { cond: Box<Exp>, body: Box<Match> },
    For { id: ValueInfo<String>, start: Box<Exp>, end: Box<Exp>, body: Box<Match> },
    Assign(Box<LValue>, Box<Slice>),
    Slice(Box<Slice>),
    Break,
}

/// An open expression: its rightmost reachable leaf is a then-only
/// conditional, so it is legal only where no enclosing construct's token can
/// follow.
#[derive(Debug, PartialEq)]
pub enum Unmatch {
    IfThen { if_exp: Box<Exp>, then_exp: Box<Exp> },
    IfThenElse(Box<Exp>, Box<Match>, Box<Unmatch>),
    While { cond: Box<Exp>, body: Box<Unmatch> },
    For { id: ValueInfo<String>, start: Box<Exp>, end: Box<Exp>, body: Box<Unmatch> },
}

/// An assignable location: a bare identifier or a chained reference.
#[derive(Debug, PartialEq)]
pub enum LValue {
    Id(ValueInfo<String>),
    Refer(Box<Refer>),
}

/// A chained reference: field access or array subscript, rooted at an
/// identifier, each link carrying its own positions for error reporting.
#[derive(Debug, PartialEq)]
pub enum Refer {
    Field(ValueInfo<String>, ValueInfo<String>),
    ReferField(Box<Refer>, ValueInfo<String>),
    Array(ValueInfo<String>, Box<Exp>),
    ReferArray(Box<Refer>, Box<Exp>),
}

/// A value-building form: array creation, record creation, or a plain
/// operator expression.
#[derive(Debug, PartialEq)]
pub enum Slice {
    Array { type_id: ValueInfo<String>, len: Box<Exp>, init: Box<Slice> },
    Record(ValueInfo<String>, Box<RecList>),
    Sheet(Box<Sheet>),
}

/// Disjunction level of the operator hierarchy.
#[derive(Debug, PartialEq)]
pub enum Sheet {
    Or(Box<Sheet>, Box<Piece>),
    Piece(Box<Piece>),
}

/// Conjunction level of the operator hierarchy.
#[derive(Debug, PartialEq)]
pub enum Piece {
    And(Box<Piece>, Box<Bit>),
    Bit(Box<Bit>),
}

/// Comparison level: non-associative, so `a < b < c` has no parse.
#[derive(Debug, PartialEq)]
pub enum Bit {
    Eq(Box<Item>, Box<Item>),
    Neq(Box<Item>, Box<Item>),
    Lt(Box<Item>, Box<Item>),
    Le(Box<Item>, Box<Item>),
    Gt(Box<Item>, Box<Item>),
    Ge(Box<Item>, Box<Item>),
    Item(Box<Item>),
}

/// Additive level, left associative.
#[derive(Debug, PartialEq)]
pub enum Item {
    Plus(Box<Item>, Box<Term>),
    Minus(Box<Item>, Box<Term>),
    Term(Box<Term>),
}

/// Multiplicative level, left associative.
#[derive(Debug, PartialEq)]
pub enum Term {
    Times(Box<Term>, Box<Factor>),
    Divide(Box<Term>, Box<Factor>),
    Factor(Box<Factor>),
}

/// Unary level: an optional single minus.
#[derive(Debug, PartialEq)]
pub enum Factor {
    MMeta(Box<Meta>),
    Meta(Box<Meta>),
}

/// Atomic level: literals, nil, identifiers, references, parenthesized
/// sequences, calls, and `let` expressions.
#[derive(Debug, PartialEq)]
pub enum Meta {
    Int(ValueInfo<u64>),
    String(ValueInfo<String>),
    Nil,
    Id(ValueInfo<String>),
    Refer(Box<Refer>),
    CapSeq(Box<ExpSeq>),
    Call(ValueInfo<String>, Box<ArgsList>),
    Let(Box<Decs>, Box<ExpSeq>),
}

/// A possibly empty call-argument list.
#[derive(Debug, PartialEq)]
pub enum ArgsList {
    Empty,
    Filled(Box<SomeArgsList>),
}

/// A non-empty, comma-separated call-argument list.
#[derive(Debug, PartialEq)]
pub enum SomeArgsList {
    Last(Box<Exp>),
    List(Box<Exp>, Box<SomeArgsList>),
}

/// A possibly empty record-initializer list.
#[derive(Debug, PartialEq)]
pub enum RecList {
    Empty,
    Filled(Box<SomeRecList>),
}

/// A non-empty record-initializer list: `id = exp`, comma separated.
#[derive(Debug, PartialEq)]
pub enum SomeRecList {
    Last(ValueInfo<String>, Box<Exp>),
    List(ValueInfo<String>, Box<Exp>, Box<SomeRecList>),
}

/// The token kinds an expression stands for.
pub open spec fn flat_exp(e: Exp) -> Seq<TokKind>
    decreases e,
{
    match e {
        Exp::Match(m) => flat_match(*m),
        Exp::Unmatch(u) => flat_unmatch(*u),
        Exp::Error => Seq::empty(),
    }
}

/// The token kinds a closed expression stands for.
pub open spec fn flat_match(m: Match) -> Seq<TokKind>
    decreases m,
{
    match m {
        Match::IfThenElse { if_exp, then_exp, else_exp } => seq![TokKind::If] + flat_exp(*if_exp)
            + seq![TokKind::Then] + flat_match(*then_exp) + seq![TokKind::Else] + flat_match(
            *else_exp,
        ),
        Match::While { cond, body } => seq![TokKind::While] + flat_exp(*cond) + seq![TokKind::Do]
            + flat_match(*body),
        Match::For { id, start, end, body } => seq![
            TokKind::For,
            TokKind::Id(id.v@),
            TokKind::Assign,
        ] + flat_exp(*start) + seq![TokKind::To] + flat_exp(*end) + seq![TokKind::Do] + flat_match(
            *body,
        ),
        Match::Assign(lv, sl) => flat_lvalue(*lv) + seq![TokKind::Assign] + flat_slice(*sl),
        Match::Slice(sl) => flat_slice(*sl),
        Match::Break => seq![TokKind::Break],
    }
}

/// The token kinds an open expression stands for.
pub open spec fn flat_unmatch(u: Unmatch) -> Seq<TokKind>
    decreases u,
{
    match u {
        Unmatch::IfThen { if_exp, then_exp } => seq![TokKind::If] + flat_exp(*if_exp) + seq![
            TokKind::Then,
        ] + flat_exp(*then_exp),
        Unmatch::IfThenElse(c, m, u2) => seq![TokKind::If] + flat_exp(*c) + seq![TokKind::Then]
            + flat_match(*m) + seq![TokKind::Else] + flat_unmatch(*u2),
        Unmatch::While { cond, body } => seq![TokKind::While] + flat_exp(*cond) + seq![TokKind::Do]
            + flat_unmatch(*body),
        Unmatch::For { id, start, end, body } => seq![
            TokKind::For,
            TokKind::Id(id.v@),
            TokKind::Assign,
        ] + flat_exp(*start) + seq![TokKind::To] + flat_exp(*end) + seq![TokKind::Do]
            + flat_unmatch(*body),
    }
}

/// The token kinds an l-value stands for.
pub open spec fn flat_lvalue(lv: LValue) -> Seq<TokKind>
    decreases lv,
{
    match lv {
        LValue::Id(vi) => seq![TokKind::Id(vi.v@)],
        LValue::Refer(r) => flat_refer(*r),
    }
}

/// The token kinds a chained reference stands for.
pub open spec fn flat_refer(r: Refer) -> Seq<TokKind>
    decreases r,
{
    match r {
        Refer::Field(a, b) => seq![TokKind::Id(a.v@), TokKind::Dot, TokKind::Id(b.v@)],
        Refer::ReferField(r2, b) => flat_refer(*r2) + seq![TokKind::Dot, TokKind::Id(b.v@)],
        Refer::Array(a, e) => seq![TokKind::Id(a.v@), TokKind::Lbrack] + flat_exp(*e) + seq![
            TokKind::Rbrack,
        ],
        Refer::ReferArray(r2, e) => flat_refer(*r2) + seq![TokKind::Lbrack] + flat_exp(*e) + seq![
            TokKind::Rbrack,
        ],
    }
}

/// The token kinds a value-building form stands for.
pub open spec fn flat_slice(sl: Slice) -> Seq<TokKind>
    decreases sl,
{
    match sl {
        Slice::Array { type_id, len, init } => seq![TokKind::Id(type_id.v@), TokKind::Lbrack]
            + flat_exp(*len) + seq![TokKind::Rbrack, TokKind::Of] + flat_slice(*init),
        Slice::Record(id, rl) => seq![TokKind::Id(id.v@), TokKind::Lbrace] + flat_reclist(*rl)
            + seq![TokKind::Rbrace],
        Slice::Sheet(sh) => flat_sheet(*sh),
    }
}

/// The token kinds of the disjunction level.
pub open spec fn flat_sheet(sh: Sheet) -> Seq<TokKind>
    decreases sh,
{
    match sh {
        Sheet::Or(sh2, p) => flat_sheet(*sh2) + seq![TokKind::Or] + flat_piece(*p),
        Sheet::Piece(p) => flat_piece(*p),
    }
}

/// The token kinds of the conjunction level.
pub open spec fn flat_piece(p: Piece) -> Seq<TokKind>
    decreases p,
{
    match p {
        Piece::And(p2, b) => flat_piece(*p2) + seq![TokKind::And] + flat_bit(*b),
        Piece::Bit(b) => flat_bit(*b),
    }
}

/// The token kinds of the comparison level.
pub open spec fn flat_bit(b: Bit) -> Seq<TokKind>
    decreases b,
{
    match b {
        Bit::Eq(a, c) => flat_item(*a) + seq![TokKind::Eq] + flat_item(*c),
        Bit::Neq(a, c) => flat_item(*a) + seq![TokKind::Neq] + flat_item(*c),
        Bit::Lt(a, c) => flat_item(*a) + seq![TokKind::Lt] + flat_item(*c),
        Bit::Le(a, c) => flat_item(*a) + seq![TokKind::Le] + flat_item(*c),
        Bit::Gt(a, c) => flat_item(*a) + seq![TokKind::Gt] + flat_item(*c),
        Bit::Ge(a, c) => flat_item(*a) + seq![TokKind::Ge] + flat_item(*c),
        Bit::Item(a) => flat_item(*a),
    }
}

/// The token kinds of the additive level.
pub open spec fn flat_item(it: Item) -> Seq<TokKind>
    decreases it,
{
    match it {
        Item::Plus(a, t) => flat_item(*a) + seq![TokKind::Plus] + flat_term(*t),
        Item::Minus(a, t) => flat_item(*a) + seq![TokKind::Minus] + flat_term(*t),
        Item::Term(t) => flat_term(*t),
    }
}

/// The token kinds of the multiplicative level.
pub open spec fn flat_term(t: Term) -> Seq<TokKind>
    decreases t,
{
    match t {
        Term::Times(a, f) => flat_term(*a) + seq![TokKind::Times] + flat_factor(*f),
        Term::Divide(a, f) => flat_term(*a) + seq![TokKind::Divide] + flat_factor(*f),
        Term::Factor(f) => flat_factor(*f),
    }
}

/// The token kinds of the unary level.
pub open spec fn flat_factor(f: Factor) -> Seq<TokKind>
    decreases f,
{
    match f {
        Factor::MMeta(m) => seq![TokKind::Minus] + flat_meta(*m),
        Factor::Meta(m) => flat_meta(*m),
    }
}

/// The token kinds of the atomic level.
pub open spec fn flat_meta(m: Meta) -> Seq<TokKind>
    decreases m,
{
    match m {
        Meta::Int(vi) => seq![TokKind::IntLit(vi.v as int)],
        Meta::String(vi) => seq![TokKind::StrLit(vi.v@)],
        Meta::Nil => seq![TokKind::Nil],
        Meta::Id(vi) => seq![TokKind::Id(vi.v@)],
        Meta::Refer(r) => flat_refer(*r),
        Meta::CapSeq(es) => seq![TokKind::Lparen] + flat_expseq(*es) + seq![TokKind::Rparen],
        Meta::Call(vi, al) => seq![TokKind::Id(vi.v@), TokKind::Lparen] + flat_args(*al) + seq![
            TokKind::Rparen,
        ],
        Meta::Let(d, es) => seq![TokKind::Let] + flat_decs(*d) + seq![TokKind::In] + flat_expseq(
            *es,
        ) + seq![TokKind::End],
    }
}

/// The token kinds of an expression sequence.
pub open spec fn flat_expseq(es: ExpSeq) -> Seq<TokKind>
    decreases es,
{
    match es {
        ExpSeq::Empty => Seq::empty(),
        ExpSeq::Filled(ses) => flat_someexpseq(*ses),
    }
}

/// The token kinds of a non-empty expression sequence.
pub open spec fn flat_someexpseq(ses: SomeExpSeq) -> Seq<TokKind>
    decreases ses,
{
    match ses {
        SomeExpSeq::Last(e) => flat_exp(*e),
        SomeExpSeq::List(e, rest) => flat_exp(*e) + seq![TokKind::Semicolon] + flat_someexpseq(
            *rest,
        ),
    }
}

/// The token kinds of a call-argument list.
pub open spec fn flat_args(al: ArgsList) -> Seq<TokKind>
    decreases al,
{
    match al {
        ArgsList::Empty => Seq::empty(),
        ArgsList::Filled(sal) => flat_someargs(*sal),
    }
}

/// The token kinds of a non-empty call-argument list.
pub open spec fn flat_someargs(sal: SomeArgsList) -> Seq<TokKind>
    decreases sal,
{
    match sal {
        SomeArgsList::Last(e) => flat_exp(*e),
        SomeArgsList::List(e, rest) => flat_exp(*e) + seq![TokKind::Comma] + flat_someargs(*rest),
    }
}

/// The token kinds of a record-initializer list.
pub open spec fn flat_reclist(rl: RecList) -> Seq<TokKind>
    decreases rl,
{
    match rl {
        RecList::Empty => Seq::empty(),
        RecList::Filled(srl) => flat_somereclist(*srl),
    }
}

/// The token kinds of a non-empty record-initializer list.
pub open spec fn flat_somereclist(srl: SomeRecList) -> Seq<TokKind>
    decreases srl,
{
    match srl {
        SomeRecList::Last(id, e) => seq![TokKind::Id(id.v@), TokKind::Eq] + flat_exp(*e),
        SomeRecList::List(id, e, rest) => seq![TokKind::Id(id.v@), TokKind::Eq] + flat_exp(*e)
            + seq![TokKind::Comma] + flat_somereclist(*rest),
    }
}

/// The token kinds of a declaration list.
pub open spec fn flat_decs(d: Decs) -> Seq<TokKind>
    decreases d,
{
    match d {
        Decs::Empty => Seq::empty(),
        Decs::Decs(dd, rest) => flat_dec(*dd) + flat_decs(*rest),
    }
}

/// The token kinds of one declaration.
pub open spec fn flat_dec(d: Dec) -> Seq<TokKind>
    decreases d,
{
    match d {
        Dec::TypeDec(td) => flat_typedec(*td),
        Dec::VarDec(vd) => flat_vardec(*vd),
        Dec::FunDec(fd) => flat_fundec(*fd),
    }
}

/// The token kinds of a type declaration.
pub open spec fn flat_typedec(td: TypeDec) -> Seq<TokKind>
    decreases td,
{
    match td {
        TypeDec::Dec(id, ty) => seq![TokKind::Type, TokKind::Id(id.v@), TokKind::Eq] + flat_ty(
            *ty,
        ),
    }
}

/// The token kinds of a type expression.
pub open spec fn flat_ty(ty: Ty) -> Seq<TokKind>
    decreases ty,
{
    match ty {
        Ty::Id(vi) => seq![TokKind::Id(vi.v@)],
        Ty::Fields(tf) => seq![TokKind::Lbrace] + flat_tyfields(*tf) + seq![TokKind::Rbrace],
        Ty::Array(vi) => seq![TokKind::Array, TokKind::Of, TokKind::Id(vi.v@)],
    }
}

/// The token kinds of a record field list.
pub open spec fn flat_tyfields(tf: TyFields) -> Seq<TokKind>
    decreases tf,
{
    match tf {
        TyFields::Empty => Seq::empty(),
        TyFields::Filled(stf) => flat_sometyfields(*stf),
    }
}

/// The token kinds of a non-empty record field list.
pub open spec fn flat_sometyfields(stf: SomeTyFields) -> Seq<TokKind>
    decreases stf,
{
    match stf {
        SomeTyFields::Last { id, type_id } => seq![
            TokKind::Id(id.v@),
            TokKind::Colon,
            TokKind::Id(type_id.v@),
        ],
        SomeTyFields::List { id, type_id, tail } => seq![
            TokKind::Id(id.v@),
            TokKind::Colon,
            TokKind::Id(type_id.v@),
            TokKind::Comma,
        ] + flat_sometyfields(*tail),
    }
}

/// The token kinds of a variable declaration.
pub open spec fn flat_vardec(vd: VarDec) -> Seq<TokKind>
    decreases vd,
{
    match vd {
        VarDec::DefaultInit(id, e) => seq![TokKind::Var, TokKind::Id(id.v@), TokKind::Assign]
            + flat_exp(*e),
        VarDec::TypeInit { var_id, type_id, exp } => seq![
            TokKind::Var,
            TokKind::Id(var_id.v@),
            TokKind::Colon,
            TokKind::Id(type_id.v@),
            TokKind::Assign,
        ] + flat_exp(*exp),
    }
}

/// The token kinds of a function declaration.
pub open spec fn flat_fundec(fd: FunDec) -> Seq<TokKind>
    decreases fd,
{
    match fd {
        FunDec::Proc(id, tf, e) => seq![TokKind::Function, TokKind::Id(id.v@), TokKind::Lparen]
            + flat_tyfields(*tf) + seq![TokKind::Rparen, TokKind::Eq] + flat_exp(*e),
        FunDec::Func { id, fields, type_id, exp } => seq![
            TokKind::Function,
            TokKind::Id(id.v@),
            TokKind::Lparen,
        ] + flat_tyfields(*fields) + seq![
            TokKind::Rparen,
            TokKind::Colon,
            TokKind::Id(type_id.v@),
            TokKind::Eq,
        ] + flat_exp(*exp),
    }
}

} // verus!
