//! Recursive-descent parser over the scanned token stream, building the
//! grammar model bottom-up. Its soundness contract: a parse tree returned by
//! `compile` flattens back to exactly the token kinds of the source, so the
//! tree is a genuine derivation of the input under the grammar the `flat_*`
//! functions state. Since the closed/open split makes the grammar
//! unambiguous, this pins the shape of the tree.

use vstd::prelude::*;

use crate::ast::{
    flat_args, flat_bit, flat_dec, flat_decs, flat_exp, flat_expseq, flat_factor, flat_item,
    flat_lvalue, flat_meta, flat_piece, flat_reclist, flat_refer, flat_sheet, flat_slice,
    flat_someargs, flat_someexpseq, flat_somereclist, flat_sometyfields, flat_term, flat_ty,
    flat_tyfields, ArgsList, Bit, Dec, Decs, Exp, ExpSeq, Factor, FunDec, Item, LValue, Match,
    Meta, Piece, RecList, Refer, Sheet, Slice, SomeArgsList, SomeExpSeq, SomeRecList,
    SomeTyFields, Term, Ty, TyFields, TypeDec, Unmatch, VarDec,
};
use crate::lexer::{ints_fit, lex, tokenize};
use crate::token::{tok_view, Lexeme, TokKind, Token};

verus! {

/// The kind of each token of a stream, in order.
pub open spec fn kinds(ts: Seq<Token>) -> Seq<TokKind> {
    ts.map_values(|t: Token| tok_view(t).1)
}

/// Splitting a window of token kinds at an interior point.
proof fn lemma_split(ks: Seq<TokKind>, a: int, b: int, c: int)
    requires
        0 <= a <= b <= c <= ks.len(),
    ensures
        ks.subrange(a, c) == ks.subrange(a, b) + ks.subrange(b, c),
{
    assert(ks.subrange(a, c) =~= ks.subrange(a, b) + ks.subrange(b, c));
}

/// A window of one token kind.
proof fn lemma_one(ks: Seq<TokKind>, a: int)
    requires
        0 <= a < ks.len(),
    ensures
        ks.subrange(a, a + 1) == seq![ks[a]],
{
    assert(ks.subrange(a, a + 1) =~= seq![ks[a]]);
}

/// The structured value a failed parse reports: the token stream does not
/// match any production (`Syntax`), or a parse succeeded but tokens remain,
/// carrying the first token left over.
#[derive(Debug, PartialEq, Clone)]
pub enum ParseErr {
    Syntax,
    Extra(Token),
}

/// Parses the atomic level: literals, `nil`, identifiers and their reference
/// chains, calls, parenthesized sequences, and `let` expressions.
#[verifier::rlimit(60)]
fn parse_meta(toks: &Vec<Token>, pos: usize) -> (r: Option<(Box<Meta>, usize)>)
    requires
        pos <= toks@.len(),
    ensures
        r matches Some(p) ==> pos < p.1 <= toks@.len() && flat_meta(*p.0) == kinds(
            toks@,
        ).subrange(pos as int, p.1 as int),
    decreases toks@.len() - pos, 2int,
{
    let ghost ks = kinds(toks@);
    let n = toks.len();
    if pos >= n {
        return None;
    }
    match &toks[pos] {
        Token::Int(vi) => {
            let node = Box::new(Meta::Int(vi.duplicate()));
            proof {
                lemma_one(ks, pos as int);
            }
            Some((node, pos + 1))
        },
        Token::String(vi) => {
            let node = Box::new(Meta::String(vi.duplicate()));
            proof {
                lemma_one(ks, pos as int);
            }
            Some((node, pos + 1))
        },
        Token::Nil(_) => {
            let node = Box::new(Meta::Nil);
            proof {
                lemma_one(ks, pos as int);
            }
            Some((node, pos + 1))
        },
        Token::Lparen(_) => {
            let (es, q) = match parse_expseq(toks, pos + 1) {
                Some(p) => p,
                None => return None,
            };
            if !(q < n && matches!(&toks[q], Token::Rparen(_))) {
                return None;
            }
            let node = Box::new(Meta::CapSeq(es));
            proof {
                lemma_one(ks, pos as int);
                lemma_one(ks, q as int);
                lemma_split(ks, pos as int, pos + 1, q as int);
                lemma_split(ks, pos as int, q as int, q + 1);
                assert(flat_meta(*node) =~= ks.subrange(pos as int, q + 1));
            }
            Some((node, q + 1))
        },
        Token::Let(_) => {
            let (ds, q1) = match parse_decs(toks, pos + 1) {
                Some(p) => p,
                None => return None,
            };
            if !(q1 < n && matches!(&toks[q1], Token::In(_))) {
                return None;
            }
            let (es, q2) = match parse_expseq(toks, q1 + 1) {
                Some(p) => p,
                None => return None,
            };
            if !(q2 < n && matches!(&toks[q2], Token::End(_))) {
                return None;
            }
            let node = Box::new(Meta::Let(ds, es));
            proof {
                lemma_one(ks, pos as int);
                lemma_one(ks, q1 as int);
                lemma_one(ks, q2 as int);
                lemma_split(ks, pos as int, pos + 1, q1 as int);
                lemma_split(ks, pos as int, q1 as int, q1 + 1);
                lemma_split(ks, pos as int, q1 + 1, q2 as int);
                lemma_split(ks, pos as int, q2 as int, q2 + 1);
                assert(flat_meta(*node) =~= ks.subrange(pos as int, q2 + 1));
            }
            Some((node, q2 + 1))
        },
        Token::Id(vi0) => {
            if n - pos > 1 && matches!(&toks[pos + 1], Token::Lparen(_)) {
                let vi = vi0.duplicate();
                let (al, q) = match parse_args(toks, pos + 2) {
                    Some(p) => p,
                    None => return None,
                };
                if !(q < n && matches!(&toks[q], Token::Rparen(_))) {
                    return None;
                }
                let node = Box::new(Meta::Call(vi, al));
                proof {
                    lemma_one(ks, pos as int);
                    lemma_one(ks, pos + 1);
                    lemma_one(ks, q as int);
                    lemma_split(ks, pos as int, pos + 1, pos + 2);
                    lemma_split(ks, pos as int, pos + 2, q as int);
                    lemma_split(ks, pos as int, q as int, q + 1);
                    assert(flat_meta(*node) =~= ks.subrange(pos as int, q + 1));
                }
                Some((node, q + 1))
            } else if n - pos > 1 && (matches!(&toks[pos + 1], Token::Dot(_)) || matches!(
                &toks[pos + 1],
                Token::Lbrack(_),
            )) {
                match parse_refer(toks, pos) {
                    Some((rf, q)) => {
                        let node = Box::new(Meta::Refer(rf));
                        Some((node, q))
                    },
                    None => None,
                }
            } else {
                let node = Box::new(Meta::Id(vi0.duplicate()));
                proof {
                    lemma_one(ks, pos as int);
                }
                Some((node, pos + 1))
            }
        },
        _ => None,
    }
}

/// Parses a reference chain rooted at an identifier: at least one field
/// access or array subscript.
fn parse_refer(toks: &Vec<Token>, pos: usize) -> (r: Option<(Box<Refer>, usize)>)
    requires
        pos <= toks@.len(),
    ensures
        r matches Some(p) ==> pos < p.1 <= toks@.len() && flat_refer(*p.0) == kinds(
            toks@,
        ).subrange(pos as int, p.1 as int),
    decreases toks@.len() - pos, 1int,
{
    let ghost ks = kinds(toks@);
    let n = toks.len();
    if pos >= n {
        return None;
    }
    let vi = match &toks[pos] {
        Token::Id(vi) => vi.duplicate(),
        _ => return None,
    };
    let mut q = pos + 1;
    let mut cur: Option<Box<Refer>> = None;
    loop
        invariant
            pos < q <= n,
            n == toks@.len(),
            ks == kinds(toks@),
            tok_view(toks@[pos as int]).1 == TokKind::Id(vi.v@),
            cur matches Some(rf) ==> flat_refer(*rf) == ks.subrange(pos as int, q as int),
            cur is None ==> q == pos + 1,
        ensures
            pos < q <= n,
            cur matches Some(rf) ==> flat_refer(*rf) == ks.subrange(pos as int, q as int),
        decreases n - q,
    {
        if q < n && matches!(&toks[q], Token::Dot(_)) && n - q > 1 && matches!(
            &toks[q + 1],
            Token::Id(_),
        ) {
            let b = match &toks[q + 1] {
                Token::Id(b) => b.duplicate(),
                _ => vstd::pervasive::unreached(),
            };
            let prev = cur;
            let nxt = match prev {
                None => Box::new(Refer::Field(vi.duplicate(), b)),
                Some(r0) => Box::new(Refer::ReferField(r0, b)),
            };
            proof {
                lemma_one(ks, pos as int);
                lemma_one(ks, q as int);
                lemma_one(ks, q + 1);
                lemma_split(ks, pos as int, q as int, q + 1);
                lemma_split(ks, pos as int, q + 1, q + 2);
                assert(flat_refer(*nxt) =~= ks.subrange(pos as int, q + 2));
            }
            cur = Some(nxt);
            q = q + 2;
        } else if q < n && matches!(&toks[q], Token::Lbrack(_)) {
            let (e, q2) = match parse_exp(toks, q + 1) {
                Some(p) => p,
                None => return None,
            };
            if !(q2 < n && matches!(&toks[q2], Token::Rbrack(_))) {
                return None;
            }
            let prev = cur;
            let nxt = match prev {
                None => Box::new(Refer::Array(vi.duplicate(), e)),
                Some(r0) => Box::new(Refer::ReferArray(r0, e)),
            };
            proof {
                lemma_one(ks, pos as int);
                lemma_one(ks, q as int);
                lemma_one(ks, q2 as int);
                lemma_split(ks, pos as int, q as int, q + 1);
                lemma_split(ks, pos as int, q + 1, q2 as int);
                lemma_split(ks, pos as int, q2 as int, q2 + 1);
                assert(flat_refer(*nxt) =~= ks.subrange(pos as int, q2 + 1));
            }
            cur = Some(nxt);
            q = q2 + 1;
        } else {
            break ;
        }
    }
    match cur {
        Some(rf) => Some((rf, q)),
        None => None,
    }
}

/// Parses an l-value: a bare identifier or a reference chain.
fn parse_lvalue(toks: &Vec<Token>, pos: usize) -> (r: Option<(Box<LValue>, usize)>)
    requires
        pos <= toks@.len(),
    ensures
        r matches Some(p) ==> pos < p.1 <= toks@.len() && flat_lvalue(*p.0) == kinds(
            toks@,
        ).subrange(pos as int, p.1 as int),
    decreases toks@.len() - pos, 2int,
{
    let ghost ks = kinds(toks@);
    let n = toks.len();
    if pos >= n {
        return None;
    }
    let vi = match &toks[pos] {
        Token::Id(vi) => vi.duplicate(),
        _ => return None,
    };
    match parse_refer(toks, pos) {
        Some((rf, q)) => Some((Box::new(LValue::Refer(rf)), q)),
        None => {
            let node = Box::new(LValue::Id(vi));
            proof {
                lemma_one(ks, pos as int);
            }
            Some((node, pos + 1))
        },
    }
}

/// Parses the unary level: an optional single minus before an atom.
fn parse_factor(toks: &Vec<Token>, pos: usize) -> (r: Option<(Box<Factor>, usize)>)
    requires
        pos <= toks@.len(),
    ensures
        r matches Some(p) ==> pos < p.1 <= toks@.len() && flat_factor(*p.0) == kinds(
            toks@,
        ).subrange(pos as int, p.1 as int),
    decreases toks@.len() - pos, 3int,
{
    let ghost ks = kinds(toks@);
    let n = toks.len();
    if pos < n && matches!(&toks[pos], Token::Minus(_)) {
        let (m, q) = match parse_meta(toks, pos + 1) {
            Some(p) => p,
            None => return None,
        };
        let node = Box::new(Factor::MMeta(m));
        proof {
            lemma_one(ks, pos as int);
            lemma_split(ks, pos as int, pos + 1, q as int);
            assert(flat_factor(*node) =~= ks.subrange(pos as int, q as int));
        }
        Some((node, q))
    } else {
        let (m, q) = match parse_meta(toks, pos) {
            Some(p) => p,
            None => return None,
        };
        Some((Box::new(Factor::Meta(m)), q))
    }
}

/// Parses the multiplicative level, left associative.
fn parse_term(toks: &Vec<Token>, pos: usize) -> (r: Option<(Box<Term>, usize)>)
    requires
        pos <= toks@.len(),
    ensures
        r matches Some(p) ==> pos < p.1 <= toks@.len() && flat_term(*p.0) == kinds(
            toks@,
        ).subrange(pos as int, p.1 as int),
    decreases toks@.len() - pos, 4int,
{
    let ghost ks = kinds(toks@);
    let n = toks.len();
    let (f0, q0) = match parse_factor(toks, pos) {
        Some(p) => p,
        None => return None,
    };
    let mut t = Box::new(Term::Factor(f0));
    let mut q = q0;
    while q < n && (matches!(&toks[q], Token::Times(_)) || matches!(&toks[q], Token::Divide(_)))
        invariant
            pos < q <= n,
            n == toks@.len(),
            ks == kinds(toks@),
            flat_term(*t) == ks.subrange(pos as int, q as int),
        decreases n - q,
    {
        let times = matches!(&toks[q], Token::Times(_));
        let (f2, q2) = match parse_factor(toks, q + 1) {
            Some(p) => p,
            None => return None,
        };
        let nxt = if times {
            Box::new(Term::Times(t, f2))
        } else {
            Box::new(Term::Divide(t, f2))
        };
        proof {
            lemma_one(ks, q as int);
            lemma_split(ks, pos as int, q as int, q + 1);
            lemma_split(ks, pos as int, q + 1, q2 as int);
            assert(flat_term(*nxt) =~= ks.subrange(pos as int, q2 as int));
        }
        t = nxt;
        q = q2;
    }
    Some((t, q))
}

/// Parses the additive level, left associative.
fn parse_item(toks: &Vec<Token>, pos: usize) -> (r: Option<(Box<Item>, usize)>)
    requires
        pos <= toks@.len(),
    ensures
        r matches Some(p) ==> pos < p.1 <= toks@.len() && flat_item(*p.0) == kinds(
            toks@,
        ).subrange(pos as int, p.1 as int),
    decreases toks@.len() - pos, 5int,
{
    let ghost ks = kinds(toks@);
    let n = toks.len();
    let (t0, q0) = match parse_term(toks, pos) {
        Some(p) => p,
        None => return None,
    };
    let mut it = Box::new(Item::Term(t0));
    let mut q = q0;
    while q < n && (matches!(&toks[q], Token::Plus(_)) || matches!(&toks[q], Token::Minus(_)))
        invariant
            pos < q <= n,
            n == toks@.len(),
            ks == kinds(toks@),
            flat_item(*it) == ks.subrange(pos as int, q as int),
        decreases n - q,
    {
        let plus = matches!(&toks[q], Token::Plus(_));
        let (t2, q2) = match parse_term(toks, q + 1) {
            Some(p) => p,
            None => return None,
        };
        let nxt = if plus {
            Box::new(Item::Plus(it, t2))
        } else {
            Box::new(Item::Minus(it, t2))
        };
        proof {
            lemma_one(ks, q as int);
            lemma_split(ks, pos as int, q as int, q + 1);
            lemma_split(ks, pos as int, q + 1, q2 as int);
            assert(flat_item(*nxt) =~= ks.subrange(pos as int, q2 as int));
        }
        it = nxt;
        q = q2;
    }
    Some((it, q))
}

/// Parses the comparison level: at most one comparison, so chained
/// comparisons have no parse.
fn parse_bit(toks: &Vec<Token>, pos: usize) -> (r: Option<(Box<Bit>, usize)>)
    requires
        pos <= toks@.len(),
    ensures
        r matches Some(p) ==> pos < p.1 <= toks@.len() && flat_bit(*p.0) == kinds(toks@).subrange(
            pos as int,
            p.1 as int,
        ),
    decreases toks@.len() - pos, 6int,
{
    let ghost ks = kinds(toks@);
    let n = toks.len();
    let (i1, q1) = match parse_item(toks, pos) {
        Some(p) => p,
        None => return None,
    };
    let cmp = q1 < n && (matches!(&toks[q1], Token::Eq(_)) || matches!(&toks[q1], Token::Neq(_))
        || matches!(&toks[q1], Token::Lt(_)) || matches!(&toks[q1], Token::Le(_)) || matches!(
        &toks[q1],
        Token::Gt(_),
    ) || matches!(&toks[q1], Token::Ge(_)));
    if !cmp {
        return Some((Box::new(Bit::Item(i1)), q1));
    }
    let (i2, q2) = match parse_item(toks, q1 + 1) {
        Some(p) => p,
        None => return None,
    };
    let node = match &toks[q1] {
        Token::Eq(_) => Box::new(Bit::Eq(i1, i2)),
        Token::Neq(_) => Box::new(Bit::Neq(i1, i2)),
        Token::Lt(_) => Box::new(Bit::Lt(i1, i2)),
        Token::Le(_) => Box::new(Bit::Le(i1, i2)),
        Token::Gt(_) => Box::new(Bit::Gt(i1, i2)),
        Token::Ge(_) => Box::new(Bit::Ge(i1, i2)),
        _ => vstd::pervasive::unreached(),
    };
    proof {
        lemma_one(ks, q1 as int);
        lemma_split(ks, pos as int, q1 as int, q1 + 1);
        lemma_split(ks, pos as int, q1 + 1, q2 as int);
        assert(flat_bit(*node) =~= ks.subrange(pos as int, q2 as int));
    }
    Some((node, q2))
}

/// Parses the conjunction level, left associative.
fn parse_piece(toks: &Vec<Token>, pos: usize) -> (r: Option<(Box<Piece>, usize)>)
    requires
        pos <= toks@.len(),
    ensures
        r matches Some(p) ==> pos < p.1 <= toks@.len() && flat_piece(*p.0) == kinds(
            toks@,
        ).subrange(pos as int, p.1 as int),
    decreases toks@.len() - pos, 7int,
{
    let ghost ks = kinds(toks@);
    let n = toks.len();
    let (b0, q0) = match parse_bit(toks, pos) {
        Some(p) => p,
        None => return None,
    };
    let mut pc = Box::new(Piece::Bit(b0));
    let mut q = q0;
    while q < n && matches!(&toks[q], Token::And(_))
        invariant
            pos < q <= n,
            n == toks@.len(),
            ks == kinds(toks@),
            flat_piece(*pc) == ks.subrange(pos as int, q as int),
        decreases n - q,
    {
        let (b2, q2) = match parse_bit(toks, q + 1) {
            Some(p) => p,
            None => return None,
        };
        let nxt = Box::new(Piece::And(pc, b2));
        proof {
            lemma_one(ks, q as int);
            lemma_split(ks, pos as int, q as int, q + 1);
            lemma_split(ks, pos as int, q + 1, q2 as int);
            assert(flat_piece(*nxt) =~= ks.subrange(pos as int, q2 as int));
        }
        pc = nxt;
        q = q2;
    }
    Some((pc, q))
}

/// Parses the disjunction level, left associative.
fn parse_sheet(toks: &Vec<Token>, pos: usize) -> (r: Option<(Box<Sheet>, usize)>)
    requires
        pos <= toks@.len(),
    ensures
        r matches Some(p) ==> pos < p.1 <= toks@.len() && flat_sheet(*p.0) == kinds(
            toks@,
        ).subrange(pos as int, p.1 as int),
    decreases toks@.len() - pos, 8int,
{
    let ghost ks = kinds(toks@);
    let n = toks.len();
    let (p0, q0) = match parse_piece(toks, pos) {
        Some(p) => p,
        None => return None,
    };
    let mut sh = Box::new(Sheet::Piece(p0));
    let mut q = q0;
    while q < n && matches!(&toks[q], Token::Or(_))
        invariant
            pos < q <= n,
            n == toks@.len(),
            ks == kinds(toks@),
            flat_sheet(*sh) == ks.subrange(pos as int, q as int),
        decreases n - q,
    {
        let (p2, q2) = match parse_piece(toks, q + 1) {
            Some(p) => p,
            None => return None,
        };
        let nxt = Box::new(Sheet::Or(sh, p2));
        proof {
            lemma_one(ks, q as int);
            lemma_split(ks, pos as int, q as int, q + 1);
            lemma_split(ks, pos as int, q + 1, q2 as int);
            assert(flat_sheet(*nxt) =~= ks.subrange(pos as int, q2 as int));
        }
        sh = nxt;
        q = q2;
    }
    Some((sh, q))
}

/// Parses a value-building form: array creation `id [len] of init`, record
/// creation `id { fields }`, or a plain operator expression.
#[verifier::rlimit(60)]
fn parse_slice(toks: &Vec<Token>, pos: usize) -> (r: Option<(Box<Slice>, usize)>)
    requires
        pos <= toks@.len(),
    ensures
        r matches Some(p) ==> pos < p.1 <= toks@.len() && flat_slice(*p.0) == kinds(
            toks@,
        ).subrange(pos as int, p.1 as int),
    decreases toks@.len() - pos, 9int,
{
    let ghost ks = kinds(toks@);
    let n = toks.len();
    if n - pos > 1 && matches!(&toks[pos], Token::Id(_)) && matches!(
        &toks[pos + 1],
        Token::Lbrack(_),
    ) {
        let vi = match &toks[pos] {
            Token::Id(vi) => vi.duplicate(),
            _ => vstd::pervasive::unreached(),
        };
        if let Some((le, q1)) = parse_exp(toks, pos + 2) {
            if n - q1 > 1 && matches!(&toks[q1], Token::Rbrack(_)) && matches!(
                &toks[q1 + 1],
                Token::Of(_),
            ) {
                let (init, q2) = match parse_slice(toks, q1 + 2) {
                    Some(p) => p,
                    None => return None,
                };
                let node = Box::new(Slice::Array { type_id: vi, len: le, init });
                proof {
                    lemma_one(ks, pos as int);
                    lemma_one(ks, pos + 1);
                    lemma_one(ks, q1 as int);
                    lemma_one(ks, q1 + 1);
                    lemma_split(ks, pos as int, pos + 1, pos + 2);
                    lemma_split(ks, pos as int, pos + 2, q1 as int);
                    lemma_split(ks, pos as int, q1 as int, q1 + 1);
                    lemma_split(ks, pos as int, q1 + 1, q1 + 2);
                    lemma_split(ks, pos as int, q1 + 2, q2 as int);
                    assert(flat_slice(*node) =~= ks.subrange(pos as int, q2 as int));
                }
                return Some((node, q2));
            }
        }
    } else if n - pos > 1 && matches!(&toks[pos], Token::Id(_)) && matches!(
        &toks[pos + 1],
        Token::Lbrace(_),
    ) {
        let vi = match &toks[pos] {
            Token::Id(vi) => vi.duplicate(),
            _ => vstd::pervasive::unreached(),
        };
        let (rl, q1) = match parse_reclist(toks, pos + 2) {
            Some(p) => p,
            None => return None,
        };
        if !(q1 < n && matches!(&toks[q1], Token::Rbrace(_))) {
            return None;
        }
        let node = Box::new(Slice::Record(vi, rl));
        proof {
            lemma_one(ks, pos as int);
            lemma_one(ks, pos + 1);
            lemma_one(ks, q1 as int);
            lemma_split(ks, pos as int, pos + 1, pos + 2);
            lemma_split(ks, pos as int, pos + 2, q1 as int);
            lemma_split(ks, pos as int, q1 as int, q1 + 1);
            assert(flat_slice(*node) =~= ks.subrange(pos as int, q1 + 1));
        }
        return Some((node, q1 + 1));
    }
    let (sh, q) = match parse_sheet(toks, pos) {
        Some(p) => p,
        None => return None,
    };
    Some((Box::new(Slice::Sheet(sh)), q))
}

/// Parses an expression: conditionals, loops, `break`, assignments, and the
/// operator hierarchy, resolving each conditional into its closed or open
/// form.
#[verifier::rlimit(60)]
fn parse_exp(toks: &Vec<Token>, pos: usize) -> (r: Option<(Box<Exp>, usize)>)
    requires
        pos <= toks@.len(),
    ensures
        r matches Some(p) ==> pos < p.1 <= toks@.len() && flat_exp(*p.0) == kinds(toks@).subrange(
            pos as int,
            p.1 as int,
        ),
    decreases toks@.len() - pos, 12int,
{
    let ghost ks = kinds(toks@);
    let n = toks.len();
    if pos >= n {
        return None;
    }
    if matches!(&toks[pos], Token::If(_)) {
        let (c, q1) = match parse_exp(toks, pos + 1) {
            Some(p) => p,
            None => return None,
        };
        if !(q1 < n && matches!(&toks[q1], Token::Then(_))) {
            return None;
        }
        let (tb, q2) = match parse_exp(toks, q1 + 1) {
            Some(p) => p,
            None => return None,
        };
        if q2 < n && matches!(&toks[q2], Token::Else(_)) {
            let tm = match *tb {
                Exp::Match(m) => m,
                _ => return None,
            };
            let (eb, q3) = match parse_exp(toks, q2 + 1) {
                Some(p) => p,
                None => return None,
            };
            proof {
                lemma_one(ks, pos as int);
                lemma_one(ks, q1 as int);
                lemma_one(ks, q2 as int);
                lemma_split(ks, pos as int, pos + 1, q1 as int);
                lemma_split(ks, pos as int, q1 as int, q1 + 1);
                lemma_split(ks, pos as int, q1 + 1, q2 as int);
                lemma_split(ks, pos as int, q2 as int, q2 + 1);
                lemma_split(ks, pos as int, q2 + 1, q3 as int);
            }
            match *eb {
                Exp::Match(em) => {
                    let node = Box::new(
                        Exp::Match(Box::new(Match::IfThenElse { if_exp: c, then_exp: tm, else_exp: em })),
                    );
                    proof {
                        assert(flat_exp(*node) =~= ks.subrange(pos as int, q3 as int));
                    }
                    Some((node, q3))
                },
                Exp::Unmatch(eu) => {
                    let node = Box::new(Exp::Unmatch(Box::new(Unmatch::IfThenElse(c, tm, eu))));
                    proof {
                        assert(flat_exp(*node) =~= ks.subrange(pos as int, q3 as int));
                    }
                    Some((node, q3))
                },
                Exp::Error => None,
            }
        } else {
            let node = Box::new(Exp::Unmatch(Box::new(Unmatch::IfThen { if_exp: c, then_exp: tb })));
            proof {
                lemma_one(ks, pos as int);
                lemma_one(ks, q1 as int);
                lemma_split(ks, pos as int, pos + 1, q1 as int);
                lemma_split(ks, pos as int, q1 as int, q1 + 1);
                lemma_split(ks, pos as int, q1 + 1, q2 as int);
                assert(flat_exp(*node) =~= ks.subrange(pos as int, q2 as int));
            }
            Some((node, q2))
        }
    } else if matches!(&toks[pos], Token::While(_)) {
        let (c, q1) = match parse_exp(toks, pos + 1) {
            Some(p) => p,
            None => return None,
        };
        if !(q1 < n && matches!(&toks[q1], Token::Do(_))) {
            return None;
        }
        let (b, q2) = match parse_exp(toks, q1 + 1) {
            Some(p) => p,
            None => return None,
        };
        proof {
            lemma_one(ks, pos as int);
            lemma_one(ks, q1 as int);
            lemma_split(ks, pos as int, pos + 1, q1 as int);
            lemma_split(ks, pos as int, q1 as int, q1 + 1);
            lemma_split(ks, pos as int, q1 + 1, q2 as int);
        }
        match *b {
            Exp::Match(m) => {
                let node = Box::new(Exp::Match(Box::new(Match::While { cond: c, body: m })));
                proof {
                    assert(flat_exp(*node) =~= ks.subrange(pos as int, q2 as int));
                }
                Some((node, q2))
            },
            Exp::Unmatch(u) => {
                let node = Box::new(Exp::Unmatch(Box::new(Unmatch::While { cond: c, body: u })));
                proof {
                    assert(flat_exp(*node) =~= ks.subrange(pos as int, q2 as int));
                }
                Some((node, q2))
            },
            Exp::Error => None,
        }
    } else if matches!(&toks[pos], Token::For(_)) {
        if !(n - pos > 2 && matches!(&toks[pos + 1], Token::Id(_)) && matches!(
            &toks[pos + 2],
            Token::Assign(_),
        )) {
            return None;
        }
        let vi = match &toks[pos + 1] {
            Token::Id(vi) => vi.duplicate(),
            _ => vstd::pervasive::unreached(),
        };
        let (lo, q1) = match parse_exp(toks, pos + 3) {
            Some(p) => p,
            None => return None,
        };
        if !(q1 < n && matches!(&toks[q1], Token::To(_))) {
            return None;
        }
        let (hi, q2) = match parse_exp(toks, q1 + 1) {
            Some(p) => p,
            None => return None,
        };
        if !(q2 < n && matches!(&toks[q2], Token::Do(_))) {
            return None;
        }
        let (b, q3) = match parse_exp(toks, q2 + 1) {
            Some(p) => p,
            None => return None,
        };
        proof {
            lemma_one(ks, pos as int);
            lemma_one(ks, pos + 1);
            lemma_one(ks, pos + 2);
            lemma_one(ks, q1 as int);
            lemma_one(ks, q2 as int);
            lemma_split(ks, pos as int, pos + 1, pos + 2);
            lemma_split(ks, pos as int, pos + 2, pos + 3);
            lemma_split(ks, pos as int, pos + 3, q1 as int);
            lemma_split(ks, pos as int, q1 as int, q1 + 1);
            lemma_split(ks, pos as int, q1 + 1, q2 as int);
            lemma_split(ks, pos as int, q2 as int, q2 + 1);
            lemma_split(ks, pos as int, q2 + 1, q3 as int);
        }
        match *b {
            Exp::Match(m) => {
                let node = Box::new(
                    Exp::Match(Box::new(Match::For { id: vi, start: lo, end: hi, body: m })),
                );
                proof {
                    assert(flat_exp(*node) =~= ks.subrange(pos as int, q3 as int));
                }
                Some((node, q3))
            },
            Exp::Unmatch(u) => {
                let node = Box::new(
                    Exp::Unmatch(Box::new(Unmatch::For { id: vi, start: lo, end: hi, body: u })),
                );
                proof {
                    assert(flat_exp(*node) =~= ks.subrange(pos as int, q3 as int));
                }
                Some((node, q3))
            },
            Exp::Error => None,
        }
    } else if matches!(&toks[pos], Token::Break(_)) {
        let node = Box::new(Exp::Match(Box::new(Match::Break)));
        proof {
            lemma_one(ks, pos as int);
        }
        Some((node, pos + 1))
    } else {
        if matches!(&toks[pos], Token::Id(_)) {
            if let Some((lv, q1)) = parse_lvalue(toks, pos) {
                if q1 < n && matches!(&toks[q1], Token::Assign(_)) {
                    let (sl, q2) = match parse_slice(toks, q1 + 1) {
                        Some(p) => p,
                        None => return None,
                    };
                    let node = Box::new(Exp::Match(Box::new(Match::Assign(lv, sl))));
                    proof {
                        lemma_one(ks, q1 as int);
                        lemma_split(ks, pos as int, q1 as int, q1 + 1);
                        lemma_split(ks, pos as int, q1 + 1, q2 as int);
                        assert(flat_exp(*node) =~= ks.subrange(pos as int, q2 as int));
                    }
                    return Some((node, q2));
                }
            }
        }
        let (sl, q) = match parse_slice(toks, pos) {
            Some(p) => p,
            None => return None,
        };
        Some((Box::new(Exp::Match(Box::new(Match::Slice(sl)))), q))
    }
}

/// Parses a possibly empty, semicolon-separated expression sequence.
fn parse_expseq(toks: &Vec<Token>, pos: usize) -> (r: Option<(Box<ExpSeq>, usize)>)
    requires
        pos <= toks@.len(),
    ensures
        r matches Some(p) ==> pos <= p.1 <= toks@.len() && flat_expseq(*p.0) == kinds(
            toks@,
        ).subrange(pos as int, p.1 as int),
    decreases toks@.len() - pos, 14int,
{
    let ghost ks = kinds(toks@);
    match parse_someexpseq(toks, pos) {
        Some((ses, q)) => Some((Box::new(ExpSeq::Filled(ses)), q)),
        None => {
            proof {
                assert(ks.subrange(pos as int, pos as int) =~= Seq::<TokKind>::empty());
            }
            Some((Box::new(ExpSeq::Empty), pos))
        },
    }
}

/// Parses a non-empty, semicolon-separated expression sequence.
fn parse_someexpseq(toks: &Vec<Token>, pos: usize) -> (r: Option<(Box<SomeExpSeq>, usize)>)
    requires
        pos <= toks@.len(),
    ensures
        r matches Some(p) ==> pos < p.1 <= toks@.len() && flat_someexpseq(*p.0) == kinds(
            toks@,
        ).subrange(pos as int, p.1 as int),
    decreases toks@.len() - pos, 13int,
{
    let ghost ks = kinds(toks@);
    let n = toks.len();
    let (e, q) = match parse_exp(toks, pos) {
        Some(p) => p,
        None => return None,
    };
    if q < n && matches!(&toks[q], Token::Semicolon(_)) {
        let (rest, q2) = match parse_someexpseq(toks, q + 1) {
            Some(p) => p,
            None => return None,
        };
        let node = Box::new(SomeExpSeq::List(e, rest));
        proof {
            lemma_one(ks, q as int);
            lemma_split(ks, pos as int, q as int, q + 1);
            lemma_split(ks, pos as int, q + 1, q2 as int);
            assert(flat_someexpseq(*node) =~= ks.subrange(pos as int, q2 as int));
        }
        Some((node, q2))
    } else {
        Some((Box::new(SomeExpSeq::Last(e)), q))
    }
}

/// Parses a possibly empty, comma-separated call-argument list.
fn parse_args(toks: &Vec<Token>, pos: usize) -> (r: Option<(Box<ArgsList>, usize)>)
    requires
        pos <= toks@.len(),
    ensures
        r matches Some(p) ==> pos <= p.1 <= toks@.len() && flat_args(*p.0) == kinds(
            toks@,
        ).subrange(pos as int, p.1 as int),
    decreases toks@.len() - pos, 14int,
{
    let ghost ks = kinds(toks@);
    match parse_someargs(toks, pos) {
        Some((sal, q)) => Some((Box::new(ArgsList::Filled(sal)), q)),
        None => {
            proof {
                assert(ks.subrange(pos as int, pos as int) =~= Seq::<TokKind>::empty());
            }
            Some((Box::new(ArgsList::Empty), pos))
        },
    }
}

/// Parses a non-empty, comma-separated call-argument list.
fn parse_someargs(toks: &Vec<Token>, pos: usize) -> (r: Option<(Box<SomeArgsList>, usize)>)
    requires
        pos <= toks@.len(),
    ensures
        r matches Some(p) ==> pos < p.1 <= toks@.len() && flat_someargs(*p.0) == kinds(
            toks@,
        ).subrange(pos as int, p.1 as int),
    decreases toks@.len() - pos, 13int,
{
    let ghost ks = kinds(toks@);
    let n = toks.len();
    let (e, q) = match parse_exp(toks, pos) {
        Some(p) => p,
        None => return None,
    };
    if q < n && matches!(&toks[q], Token::Comma(_)) {
        let (rest, q2) = match parse_someargs(toks, q + 1) {
            Some(p) => p,
            None => return None,
        };
        let node = Box::new(SomeArgsList::List(e, rest));
        proof {
            lemma_one(ks, q as int);
            lemma_split(ks, pos as int, q as int, q + 1);
            lemma_split(ks, pos as int, q + 1, q2 as int);
            assert(flat_someargs(*node) =~= ks.subrange(pos as int, q2 as int));
        }
        Some((node, q2))
    } else {
        Some((Box::new(SomeArgsList::Last(e)), q))
    }
}

/// Parses a possibly empty record-initializer list.
fn parse_reclist(toks: &Vec<Token>, pos: usize) -> (r: Option<(Box<RecList>, usize)>)
    requires
        pos <= toks@.len(),
    ensures
        r matches Some(p) ==> pos <= p.1 <= toks@.len() && flat_reclist(*p.0) == kinds(
            toks@,
        ).subrange(pos as int, p.1 as int),
    decreases toks@.len() - pos, 14int,
{
    let ghost ks = kinds(toks@);
    match parse_somereclist(toks, pos) {
        Some((srl, q)) => Some((Box::new(RecList::Filled(srl)), q)),
        None => {
            proof {
                assert(ks.subrange(pos as int, pos as int) =~= Seq::<TokKind>::empty());
            }
            Some((Box::new(RecList::Empty), pos))
        },
    }
}

/// Parses a non-empty record-initializer list: `id = exp`, comma separated.
fn parse_somereclist(toks: &Vec<Token>, pos: usize) -> (r: Option<(Box<SomeRecList>, usize)>)
    requires
        pos <= toks@.len(),
    ensures
        r matches Some(p) ==> pos < p.1 <= toks@.len() && flat_somereclist(*p.0) == kinds(
            toks@,
        ).subrange(pos as int, p.1 as int),
    decreases toks@.len() - pos, 13int,
{
    let ghost ks = kinds(toks@);
    let n = toks.len();
    if !(n - pos > 1 && matches!(&toks[pos], Token::Id(_)) && matches!(
        &toks[pos + 1],
        Token::Eq(_),
    )) {
        return None;
    }
    let vi = match &toks[pos] {
        Token::Id(vi) => vi.duplicate(),
        _ => vstd::pervasive::unreached(),
    };
    let (e, q) = match parse_exp(toks, pos + 2) {
        Some(p) => p,
        None => return None,
    };
    if q < n && matches!(&toks[q], Token::Comma(_)) {
        let (rest, q2) = match parse_somereclist(toks, q + 1) {
            Some(p) => p,
            None => return None,
        };
        let node = Box::new(SomeRecList::List(vi, e, rest));
        proof {
            lemma_one(ks, pos as int);
            lemma_one(ks, pos + 1);
            lemma_one(ks, q as int);
            lemma_split(ks, pos as int, pos + 1, pos + 2);
            lemma_split(ks, pos as int, pos + 2, q as int);
            lemma_split(ks, pos as int, q as int, q + 1);
            lemma_split(ks, pos as int, q + 1, q2 as int);
            assert(flat_somereclist(*node) =~= ks.subrange(pos as int, q2 as int));
        }
        Some((node, q2))
    } else {
        let node = Box::new(SomeRecList::Last(vi, e));
        proof {
            lemma_one(ks, pos as int);
            lemma_one(ks, pos + 1);
            lemma_split(ks, pos as int, pos + 1, pos + 2);
            lemma_split(ks, pos as int, pos + 2, q as int);
            assert(flat_somereclist(*node) =~= ks.subrange(pos as int, q as int));
        }
        Some((node, q))
    }
}

/// Parses a possibly empty record field list: `id : type_id`, comma
/// separated.
fn parse_tyfields(toks: &Vec<Token>, pos: usize) -> (r: Option<(Box<TyFields>, usize)>)
    requires
        pos <= toks@.len(),
    ensures
        r matches Some(p) ==> pos <= p.1 <= toks@.len() && flat_tyfields(*p.0) == kinds(
            toks@,
        ).subrange(pos as int, p.1 as int),
    decreases toks@.len() - pos, 2int,
{
    let ghost ks = kinds(toks@);
    match parse_sometyfields(toks, pos) {
        Some((stf, q)) => Some((Box::new(TyFields::Filled(stf)), q)),
        None => {
            proof {
                assert(ks.subrange(pos as int, pos as int) =~= Seq::<TokKind>::empty());
            }
            Some((Box::new(TyFields::Empty), pos))
        },
    }
}

/// Parses a non-empty record field list.
fn parse_sometyfields(toks: &Vec<Token>, pos: usize) -> (r: Option<(Box<SomeTyFields>, usize)>)
    requires
        pos <= toks@.len(),
    ensures
        r matches Some(p) ==> pos < p.1 <= toks@.len() && flat_sometyfields(*p.0) == kinds(
            toks@,
        ).subrange(pos as int, p.1 as int),
    decreases toks@.len() - pos, 1int,
{
    let ghost ks = kinds(toks@);
    let n = toks.len();
    if !(n - pos > 2 && matches!(&toks[pos], Token::Id(_)) && matches!(
        &toks[pos + 1],
        Token::Colon(_),
    ) && matches!(&toks[pos + 2], Token::Id(_))) {
        return None;
    }
    let vi = match &toks[pos] {
        Token::Id(vi) => vi.duplicate(),
        _ => vstd::pervasive::unreached(),
    };
    let ti = match &toks[pos + 2] {
        Token::Id(ti) => ti.duplicate(),
        _ => vstd::pervasive::unreached(),
    };
    if n - pos > 3 && matches!(&toks[pos + 3], Token::Comma(_)) {
        let (tail, q2) = match parse_sometyfields(toks, pos + 4) {
            Some(p) => p,
            None => return None,
        };
        let node = Box::new(SomeTyFields::List { id: vi, type_id: ti, tail });
        proof {
            lemma_one(ks, pos as int);
            lemma_one(ks, pos + 1);
            lemma_one(ks, pos + 2);
            lemma_one(ks, pos + 3);
            lemma_split(ks, pos as int, pos + 1, pos + 2);
            lemma_split(ks, pos as int, pos + 2, pos + 3);
            lemma_split(ks, pos as int, pos + 3, pos + 4);
            lemma_split(ks, pos as int, pos + 4, q2 as int);
            assert(flat_sometyfields(*node) =~= ks.subrange(pos as int, q2 as int));
        }
        Some((node, q2))
    } else {
        let node = Box::new(SomeTyFields::Last { id: vi, type_id: ti });
        proof {
            lemma_one(ks, pos as int);
            lemma_one(ks, pos + 1);
            lemma_one(ks, pos + 2);
            lemma_split(ks, pos as int, pos + 1, pos + 2);
            lemma_split(ks, pos as int, pos + 2, pos + 3);
            assert(flat_sometyfields(*node) =~= ks.subrange(pos as int, pos + 3));
        }
        Some((node, pos + 3))
    }
}

/// Parses a type expression: a named type, `{ fields }`, or `array of id`.
fn parse_ty(toks: &Vec<Token>, pos: usize) -> (r: Option<(Box<Ty>, usize)>)
    requires
        pos <= toks@.len(),
    ensures
        r matches Some(p) ==> pos < p.1 <= toks@.len() && flat_ty(*p.0) == kinds(toks@).subrange(
            pos as int,
            p.1 as int,
        ),
    decreases toks@.len() - pos, 3int,
{
    let ghost ks = kinds(toks@);
    let n = toks.len();
    if pos >= n {
        return None;
    }
    match &toks[pos] {
        Token::Id(vi) => {
            let node = Box::new(Ty::Id(vi.duplicate()));
            proof {
                lemma_one(ks, pos as int);
            }
            Some((node, pos + 1))
        },
        Token::Lbrace(_) => {
            let (tf, q) = match parse_tyfields(toks, pos + 1) {
                Some(p) => p,
                None => return None,
            };
            if !(q < n && matches!(&toks[q], Token::Rbrace(_))) {
                return None;
            }
            let node = Box::new(Ty::Fields(tf));
            proof {
                lemma_one(ks, pos as int);
                lemma_one(ks, q as int);
                lemma_split(ks, pos as int, pos + 1, q as int);
                lemma_split(ks, pos as int, q as int, q + 1);
                assert(flat_ty(*node) =~= ks.subrange(pos as int, q + 1));
            }
            Some((node, q + 1))
        },
        Token::Array(_) => {
            if !(n - pos > 2 && matches!(&toks[pos + 1], Token::Of(_)) && matches!(
                &toks[pos + 2],
                Token::Id(_),
            )) {
                return None;
            }
            let vi = match &toks[pos + 2] {
                Token::Id(vi) => vi.duplicate(),
                _ => vstd::pervasive::unreached(),
            };
            let node = Box::new(Ty::Array(vi));
            proof {
                lemma_one(ks, pos as int);
                lemma_one(ks, pos + 1);
                lemma_one(ks, pos + 2);
                lemma_split(ks, pos as int, pos + 1, pos + 2);
                lemma_split(ks, pos as int, pos + 2, pos + 3);
                assert(flat_ty(*node) =~= ks.subrange(pos as int, pos + 3));
            }
            Some((node, pos + 3))
        },
        _ => None,
    }
}

/// Parses one declaration: `type`, `var`, or `function`.
#[verifier::rlimit(60)]
fn parse_dec(toks: &Vec<Token>, pos: usize) -> (r: Option<(Box<Dec>, usize)>)
    requires
        pos <= toks@.len(),
    ensures
        r matches Some(p) ==> pos < p.1 <= toks@.len() && flat_dec(*p.0) == kinds(toks@).subrange(
            pos as int,
            p.1 as int,
        ),
    decreases toks@.len() - pos, 13int,
{
    let ghost ks = kinds(toks@);
    let n = toks.len();
    if pos >= n {
        return None;
    }
    match &toks[pos] {
        Token::Type(_) => {
            if !(n - pos > 2 && matches!(&toks[pos + 1], Token::Id(_)) && matches!(
                &toks[pos + 2],
                Token::Eq(_),
            )) {
                return None;
            }
            let vi = match &toks[pos + 1] {
                Token::Id(vi) => vi.duplicate(),
                _ => vstd::pervasive::unreached(),
            };
            let (ty, q) = match parse_ty(toks, pos + 3) {
                Some(p) => p,
                None => return None,
            };
            let node = Box::new(Dec::TypeDec(Box::new(TypeDec::Dec(vi, ty))));
            proof {
                lemma_one(ks, pos as int);
                lemma_one(ks, pos + 1);
                lemma_one(ks, pos + 2);
                lemma_split(ks, pos as int, pos + 1, pos + 2);
                lemma_split(ks, pos as int, pos + 2, pos + 3);
                lemma_split(ks, pos as int, pos + 3, q as int);
                assert(flat_dec(*node) =~= ks.subrange(pos as int, q as int));
            }
            Some((node, q))
        },
        Token::Var(_) => {
            if !(n - pos > 1 && matches!(&toks[pos + 1], Token::Id(_))) {
                return None;
            }
            let vi = match &toks[pos + 1] {
                Token::Id(vi) => vi.duplicate(),
                _ => vstd::pervasive::unreached(),
            };
            if n - pos > 2 && matches!(&toks[pos + 2], Token::Assign(_)) {
                let (e, q) = match parse_exp(toks, pos + 3) {
                    Some(p) => p,
                    None => return None,
                };
                let node = Box::new(Dec::VarDec(Box::new(VarDec::DefaultInit(vi, e))));
                proof {
                    lemma_one(ks, pos as int);
                    lemma_one(ks, pos + 1);
                    lemma_one(ks, pos + 2);
                    lemma_split(ks, pos as int, pos + 1, pos + 2);
                    lemma_split(ks, pos as int, pos + 2, pos + 3);
                    lemma_split(ks, pos as int, pos + 3, q as int);
                    assert(flat_dec(*node) =~= ks.subrange(pos as int, q as int));
                }
                Some((node, q))
            } else if n - pos > 4 && matches!(&toks[pos + 2], Token::Colon(_)) && matches!(
                &toks[pos + 3],
                Token::Id(_),
            ) && matches!(&toks[pos + 4], Token::Assign(_)) {
                let ti = match &toks[pos + 3] {
                    Token::Id(ti) => ti.duplicate(),
                    _ => vstd::pervasive::unreached(),
                };
                let (e, q) = match parse_exp(toks, pos + 5) {
                    Some(p) => p,
                    None => return None,
                };
                let node = Box::new(
                    Dec::VarDec(Box::new(VarDec::TypeInit { var_id: vi, type_id: ti, exp: e })),
                );
                proof {
                    lemma_one(ks, pos as int);
                    lemma_one(ks, pos + 1);
                    lemma_one(ks, pos + 2);
                    lemma_one(ks, pos + 3);
                    lemma_one(ks, pos + 4);
                    lemma_split(ks, pos as int, pos + 1, pos + 2);
                    lemma_split(ks, pos as int, pos + 2, pos + 3);
                    lemma_split(ks, pos as int, pos + 3, pos + 4);
                    lemma_split(ks, pos as int, pos + 4, pos + 5);
                    lemma_split(ks, pos as int, pos + 5, q as int);
                    assert(flat_dec(*node) =~= ks.subrange(pos as int, q as int));
                }
                Some((node, q))
            } else {
                None
            }
        },
        Token::Function(_) => {
            if !(n - pos > 2 && matches!(&toks[pos + 1], Token::Id(_)) && matches!(
                &toks[pos + 2],
                Token::Lparen(_),
            )) {
                return None;
            }
            let vi = match &toks[pos + 1] {
                Token::Id(vi) => vi.duplicate(),
                _ => vstd::pervasive::unreached(),
            };
            let (tf, q1) = match parse_tyfields(toks, pos + 3) {
                Some(p) => p,
                None => return None,
            };
            if !(q1 < n && matches!(&toks[q1], Token::Rparen(_))) {
                return None;
            }
            if n - q1 > 1 && matches!(&toks[q1 + 1], Token::Eq(_)) {
                let (e, q) = match parse_exp(toks, q1 + 2) {
                    Some(p) => p,
                    None => return None,
                };
                let node = Box::new(Dec::FunDec(Box::new(FunDec::Proc(vi, tf, e))));
                proof {
                    lemma_one(ks, pos as int);
                    lemma_one(ks, pos + 1);
                    lemma_one(ks, pos + 2);
                    lemma_one(ks, q1 as int);
                    lemma_one(ks, q1 + 1);
                    lemma_split(ks, pos as int, pos + 1, pos + 2);
                    lemma_split(ks, pos as int, pos + 2, pos + 3);
                    lemma_split(ks, pos as int, pos + 3, q1 as int);
                    lemma_split(ks, pos as int, q1 as int, q1 + 1);
                    lemma_split(ks, pos as int, q1 + 1, q1 + 2);
                    lemma_split(ks, pos as int, q1 + 2, q as int);
                    assert(flat_dec(*node) =~= ks.subrange(pos as int, q as int));
                }
                Some((node, q))
            } else if n - q1 > 3 && matches!(&toks[q1 + 1], Token::Colon(_)) && matches!(
                &toks[q1 + 2],
                Token::Id(_),
            ) && matches!(&toks[q1 + 3], Token::Eq(_)) {
                let ti = match &toks[q1 + 2] {
                    Token::Id(ti) => ti.duplicate(),
                    _ => vstd::pervasive::unreached(),
                };
                let (e, q) = match parse_exp(toks, q1 + 4) {
                    Some(p) => p,
                    None => return None,
                };
                let node = Box::new(
                    Dec::FunDec(
                        Box::new(FunDec::Func { id: vi, fields: tf, type_id: ti, exp: e }),
                    ),
                );
                proof {
                    lemma_one(ks, pos as int);
                    lemma_one(ks, pos + 1);
                    lemma_one(ks, pos + 2);
                    lemma_one(ks, q1 as int);
                    lemma_one(ks, q1 + 1);
                    lemma_one(ks, q1 + 2);
                    lemma_one(ks, q1 + 3);
                    lemma_split(ks, pos as int, pos + 1, pos + 2);
                    lemma_split(ks, pos as int, pos + 2, pos + 3);
                    lemma_split(ks, pos as int, pos + 3, q1 as int);
                    lemma_split(ks, pos as int, q1 as int, q1 + 1);
                    lemma_split(ks, pos as int, q1 + 1, q1 + 2);
                    lemma_split(ks, pos as int, q1 + 2, q1 + 3);
                    lemma_split(ks, pos as int, q1 + 3, q1 + 4);
                    lemma_split(ks, pos as int, q1 + 4, q as int);
                    assert(flat_dec(*node) =~= ks.subrange(pos as int, q as int));
                }
                Some((node, q))
            } else {
                None
            }
        },
        _ => None,
    }
}

/// Parses a possibly empty declaration list.
fn parse_decs(toks: &Vec<Token>, pos: usize) -> (r: Option<(Box<Decs>, usize)>)
    requires
        pos <= toks@.len(),
    ensures
        r matches Some(p) ==> pos <= p.1 <= toks@.len() && flat_decs(*p.0) == kinds(
            toks@,
        ).subrange(pos as int, p.1 as int),
    decreases toks@.len() - pos, 14int,
{
    let ghost ks = kinds(toks@);
    match parse_dec(toks, pos) {
        Some((d, q)) => {
            let (rest, q2) = match parse_decs(toks, q) {
                Some(p) => p,
                None => return None,
            };
            let node = Box::new(Decs::Decs(d, rest));
            proof {
                lemma_split(ks, pos as int, q as int, q2 as int);
                assert(flat_decs(*node) =~= ks.subrange(pos as int, q2 as int));
            }
            Some((node, q2))
        },
        None => {
            proof {
                assert(ks.subrange(pos as int, pos as int) =~= Seq::<TokKind>::empty());
            }
            Some((Box::new(Decs::Empty), pos))
        },
    }
}

/// Scans and parses a whole source text. On success the returned tree
/// flattens back to exactly the token kinds of the source; a failed parse
/// reports the structured error, carrying the first leftover token when a
/// prefix parsed but tokens remained.
pub fn compile(input: &str) -> (r: Result<Box<Exp>, ParseErr>)
    requires
        ints_fit(input@),
    ensures
        r matches Ok(e) ==> flat_exp(*e) == lex(input@, 0).map_values(|g: Lexeme| g.kind),
{
    let toks = tokenize(input);
    let ghost s = input@;
    proof {
        assert(kinds(toks@) =~= lex(s, 0).map_values(|g: Lexeme| g.kind));
        assert(kinds(toks@).subrange(0, toks@.len() as int) =~= kinds(toks@));
    }
    let n = toks.len();
    match parse_exp(&toks, 0) {
        Some((e, q)) => {
            if q == n {
                Ok(e)
            } else {
                Err(ParseErr::Extra(toks[q].clone()))
            }
        },
        None => Err(ParseErr::Syntax),
    }
}

} // verus!