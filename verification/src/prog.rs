//! The example straight-line program: assign `a := 5 + 3`, assign
//! `b := (print(a, a - 1); 10 * a)`, then print `b`. Its contract pins both
//! its argument weight and the exact lines it prints.

use vstd::prelude::*;

use crate::slp::{stm_args, ABinop, AExp, AExpList, AStm};

verus! {

/// Builds the example program; its argument weight is two. Running it in an
/// empty environment prints the line `8 7` followed by the line `80`.
pub fn prog() -> (r: AStm)
    ensures
        stm_args(r) == 2,
{
    let r = AStm::Compound {
        stm1: Box::new(
            AStm::Assign {
                id: String::from_str("a"),
                exp: Box::new(
                    AExp::Op {
                        left: Box::new(AExp::Num(5)),
                        oper: ABinop::Plus,
                        right: Box::new(AExp::Num(3)),
                    },
                ),
            },
        ),
        stm2: Box::new(
            AStm::Compound {
                stm1: Box::new(
                    AStm::Assign {
                        id: String::from_str("b"),
                        exp: Box::new(
                            AExp::Eseq {
                                stm: Box::new(
                                    AStm::Print {
                                        list: AExpList::Pair {
                                            head: Box::new(AExp::Id(String::from_str("a"))),
                                            tail: Box::new(
                                                AExpList::Last(
                                                    Box::new(
                                                        AExp::Op {
                                                            left: Box::new(
                                                                AExp::Id(String::from_str("a")),
                                                            ),
                                                            oper: ABinop::Minus,
                                                            right: Box::new(AExp::Num(1)),
                                                        },
                                                    ),
                                                ),
                                            ),
                                        },
                                    },
                                ),
                                exp: Box::new(
                                    AExp::Op {
                                        left: Box::new(AExp::Num(10)),
                                        oper: ABinop::Times,
                                        right: Box::new(AExp::Id(String::from_str("a"))),
                                    },
                                ),
                            },
                        ),
                    },
                ),
                stm2: Box::new(
                    AStm::Print {
                        list: AExpList::Last(Box::new(AExp::Id(String::from_str("b")))),
                    },
                ),
            },
        ),
    };
    proof {
        reveal_with_fuel(stm_args, 10);
        reveal_with_fuel(crate::slp::exp_args, 10);
        reveal_with_fuel(crate::slp::list_args, 10);
        assert(stm_args(r) == 2);
    }
    r
}

} // verus!
