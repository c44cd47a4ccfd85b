//! Straight-line-program model: statements (compound, assignment, print),
//! expressions (identifiers, numbers, binary operators, statement-expression
//! sequences), and the specification-level evaluator the interpreter is
//! verified against.

use vstd::prelude::*;

verus! {

/// A statement: a compound of two statements, an assignment, or a print of an
/// expression list.
#[derive(Debug, PartialEq)]
pub enum AStm {
    Compound { stm1: Box<AStm>, stm2: Box<AStm> },
    Assign { id: String, exp: Box<AExp> },
    Print { list: AExpList },
}

/// An expression: an identifier, a number, a binary operation, or a
/// statement followed by an expression.
#[derive(Debug, PartialEq)]
pub enum AExp {
    Id(String),
    Num(i32),
    Op { left: Box<AExp>, oper: ABinop, right: Box<AExp> },
    Eseq { stm: Box<AStm>, exp: Box<AExp> },
}

/// A non-empty expression list, as printed by a print statement.
#[derive(Debug, PartialEq)]
pub enum AExpList {
    Pair { head: Box<AExp>, tail: Box<AExpList> },
    Last(Box<AExp>),
}

/// The four binary operators.
#[derive(Debug, PartialEq, Eq, Structural, Clone, Copy)]
pub enum ABinop {
    Plus,
    Minus,
    Times,
    Div,
}

/// The argument weight of an expression: the number of print statements it
/// contains plus the number of their arguments.
pub open spec fn exp_args(e: AExp) -> int
    decreases e,
{
    match e {
        AExp::Op { left, oper, right } => exp_args(*left) + exp_args(*right),
        AExp::Eseq { stm, exp } => stm_args(*stm) + exp_args(*exp),
        _ => 0,
    }
}

/// The argument weight of an expression list.
pub open spec fn list_args(l: AExpList) -> int
    decreases l,
{
    match l {
        AExpList::Pair { head, tail } => exp_args(*head) + list_args(*tail),
        AExpList::Last(e) => exp_args(*e),
    }
}

/// The argument weight of a statement.
pub open spec fn stm_args(s: AStm) -> int
    decreases s,
{
    match s {
        AStm::Compound { stm1, stm2 } => stm_args(*stm1) + stm_args(*stm2),
        AStm::Assign { id, exp } => exp_args(*exp),
        AStm::Print { list } => 1 + list_args(list),
    }
}

/// Argument weights are never negative.
pub proof fn lemma_exp_args_nonneg(e: AExp)
    ensures
        exp_args(e) >= 0,
    decreases e,
{
    match e {
        AExp::Op { left, oper, right } => {
            lemma_exp_args_nonneg(*left);
            lemma_exp_args_nonneg(*right);
        },
        AExp::Eseq { stm, exp } => {
            lemma_stm_args_nonneg(*stm);
            lemma_exp_args_nonneg(*exp);
        },
        _ => {},
    }
}

/// Argument weights of lists are never negative.
pub proof fn lemma_list_args_nonneg(l: AExpList)
    ensures
        list_args(l) >= 0,
    decreases l,
{
    match l {
        AExpList::Pair { head, tail } => {
            lemma_exp_args_nonneg(*head);
            lemma_list_args_nonneg(*tail);
        },
        AExpList::Last(e) => {
            lemma_exp_args_nonneg(*e);
        },
    }
}

/// Argument weights of statements are never negative.
pub proof fn lemma_stm_args_nonneg(s: AStm)
    ensures
        stm_args(s) >= 0,
    decreases s,
{
    match s {
        AStm::Compound { stm1, stm2 } => {
            lemma_stm_args_nonneg(*stm1);
            lemma_stm_args_nonneg(*stm2);
        },
        AStm::Assign { id, exp } => {
            lemma_exp_args_nonneg(*exp);
        },
        AStm::Print { list } => {
            lemma_list_args_nonneg(list);
        },
    }
}

/// Checked 32-bit addition over the integers.
pub open spec fn add_chk(l: int, r: int) -> Option<int> {
    if i32::MIN <= l + r <= i32::MAX {
        Some(l + r)
    } else {
        None
    }
}

/// Checked 32-bit subtraction over the integers.
pub open spec fn sub_chk(l: int, r: int) -> Option<int> {
    if i32::MIN <= l - r <= i32::MAX {
        Some(l - r)
    } else {
        None
    }
}

/// Checked 32-bit multiplication over the integers.
pub open spec fn mul_chk(l: int, r: int) -> Option<int> {
    if i32::MIN <= l * r <= i32::MAX {
        Some(l * r)
    } else {
        None
    }
}

/// Checked 32-bit division over the integers, truncating toward zero as the
/// machine division does; division by zero and overflow give `None`.
pub open spec fn div_chk(l: int, r: int) -> Option<int> {
    if r == 0 {
        None
    } else {
        let q = if l == 0 {
            0int
        } else if l > 0 && r > 0 {
            l / r
        } else if l < 0 && r < 0 {
            (l * -1) / (r * -1)
        } else if l < 0 {
            ((l * -1) / r) * -1
        } else {
            (l / (r * -1)) * -1
        };
        if q < i32::MIN || q > i32::MAX {
            None
        } else {
            Some(q)
        }
    }
}

/// One checked binary operation.
pub open spec fn op_chk(op: ABinop, l: int, r: int) -> Option<int> {
    match op {
        ABinop::Plus => add_chk(l, r),
        ABinop::Minus => sub_chk(l, r),
        ABinop::Times => mul_chk(l, r),
        ABinop::Div => div_chk(l, r),
    }
}

/// Evaluates an expression in an environment: the value, the environment
/// after its side effects, and the lines its print statements emit, or `None`
/// on an undefined identifier, a division by zero, or a value outside the
/// 32-bit range.
pub open spec fn eval_exp(e: AExp, env: Map<Seq<char>, int>) -> Option<
    (int, Map<Seq<char>, int>, Seq<Seq<int>>),
>
    decreases e,
{
    match e {
        AExp::Id(id) => if env.dom().contains(id@) {
            Some((env[id@], env, Seq::empty()))
        } else {
            None
        },
        AExp::Num(nm) => Some((nm as int, env, Seq::empty())),
        AExp::Op { left, oper, right } => match eval_exp(*left, env) {
            None => None,
            Some((lv, env1, o1)) => match eval_exp(*right, env1) {
                None => None,
                Some((rv, env2, o2)) => match op_chk(oper, lv, rv) {
                    None => None,
                    Some(v) => Some((v, env2, o1 + o2)),
                },
            },
        },
        AExp::Eseq { stm, exp } => match eval_stm(*stm, env) {
            None => None,
            Some((env1, o1)) => match eval_exp(*exp, env1) {
                None => None,
                Some((v, env2, o2)) => Some((v, env2, o1 + o2)),
            },
        },
    }
}

/// Evaluates an expression list: the printed values (in the order the
/// original arranges them: the tail is evaluated before the head, and each
/// level reverses its accumulated values), the resulting environment, and the
/// lines emitted while evaluating.
pub open spec fn eval_list(l: AExpList, env: Map<Seq<char>, int>) -> Option<
    (Seq<int>, Map<Seq<char>, int>, Seq<Seq<int>>),
>
    decreases l,
{
    match l {
        AExpList::Last(e) => match eval_exp(*e, env) {
            None => None,
            Some((v, env1, o1)) => Some((seq![v], env1, o1)),
        },
        AExpList::Pair { head, tail } => match eval_list(*tail, env) {
            None => None,
            Some((vs, env1, o1)) => match eval_exp(*head, env1) {
                None => None,
                Some((v, env2, o2)) => Some((vs.push(v).reverse(), env2, o1 + o2)),
            },
        },
    }
}

/// Evaluates a statement: the environment after it and the lines it emits.
pub open spec fn eval_stm(s: AStm, env: Map<Seq<char>, int>) -> Option<
    (Map<Seq<char>, int>, Seq<Seq<int>>),
>
    decreases s,
{
    match s {
        AStm::Compound { stm1, stm2 } => match eval_stm(*stm1, env) {
            None => None,
            Some((env1, o1)) => match eval_stm(*stm2, env1) {
                None => None,
                Some((env2, o2)) => Some((env2, o1 + o2)),
            },
        },
        AStm::Assign { id, exp } => match eval_exp(*exp, env) {
            None => None,
            Some((v, env1, o1)) => Some((env1.insert(id@, v), o1)),
        },
        AStm::Print { list } => match eval_list(list, env) {
            None => None,
            Some((vs, env1, o1)) => Some((env1, o1 + seq![vs])),
        },
    }
}

} // verus!
