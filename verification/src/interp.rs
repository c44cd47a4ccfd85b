//! Interpreter for straight-line programs, verified against the
//! specification-level evaluator, and the argument-weight computation. The
//! print statements' output is returned as data: one vector of values per
//! emitted line.

use vstd::prelude::*;

use crate::slp::{
    eval_exp, eval_list, eval_stm, exp_args, lemma_exp_args_nonneg, lemma_list_args_nonneg,
    lemma_stm_args_nonneg, list_args, stm_args, ABinop, AExp, AExpList, AStm,
};

verus! {

/// The argument weight of an expression, as executable code.
pub fn exp_max_args(exp: &AExp) -> (r: i32)
    requires
        exp_args(*exp) <= i32::MAX,
    ensures
        r as int == exp_args(*exp),
    decreases *exp,
{
    match exp {
        AExp::Op { left, oper, right } => {
            proof {
                lemma_exp_args_nonneg(**left);
                lemma_exp_args_nonneg(**right);
            }
            exp_max_args(left) + exp_max_args(right)
        },
        AExp::Eseq { stm, exp } => {
            proof {
                lemma_stm_args_nonneg(**stm);
                lemma_exp_args_nonneg(**exp);
            }
            max_args(stm) + exp_max_args(exp)
        },
        _ => 0,
    }
}

/// The argument weight of an expression list, as executable code.
pub fn list_max_args(list: &AExpList) -> (r: i32)
    requires
        list_args(*list) <= i32::MAX,
    ensures
        r as int == list_args(*list),
    decreases *list,
{
    match list {
        AExpList::Pair { head, tail } => {
            proof {
                lemma_exp_args_nonneg(**head);
                lemma_list_args_nonneg(**tail);
            }
            exp_max_args(head) + list_max_args(tail)
        },
        AExpList::Last(e) => exp_max_args(e),
    }
}

/// The argument weight of a statement, as executable code.
pub fn max_args(stm: &AStm) -> (r: i32)
    requires
        stm_args(*stm) <= i32::MAX,
    ensures
        r as int == stm_args(*stm),
    decreases *stm,
{
    match stm {
        AStm::Compound { stm1, stm2 } => {
            proof {
                lemma_stm_args_nonneg(**stm1);
                lemma_stm_args_nonneg(**stm2);
            }
            max_args(stm1) + max_args(stm2)
        },
        AStm::Assign { id, exp } => exp_max_args(exp),
        AStm::Print { list } => {
            proof {
                lemma_list_args_nonneg(*list);
            }
            1 + list_max_args(list)
        },
    }
}

/// The environment a list of bindings denotes: later bindings shadow earlier
/// ones.
pub open spec fn env_map(ps: Seq<(String, i32)>) -> Map<Seq<char>, int>
    decreases ps.len(),
{
    if ps.len() == 0 {
        Map::empty()
    } else {
        env_map(ps.drop_last()).insert(ps.last().0@, ps.last().1 as int)
    }
}

/// The mathematical value of the emitted lines.
pub open spec fn lines_view(o: Seq<Vec<i32>>) -> Seq<Seq<int>> {
    o.map_values(|v: Vec<i32>| v@.map_values(|x: i32| x as int))
}

/// Looks an identifier up: the most recent binding, if any.
fn env_get(env: &Vec<(String, i32)>, id: &String) -> (r: Option<i32>)
    ensures
        match r {
            Some(v) => env_map(env@).dom().contains(id@) && env_map(env@)[id@] == v as int,
            None => !env_map(env@).dom().contains(id@),
        },
{
    let mut k = env.len();
    proof {
        assert(env@.subrange(0, k as int) =~= env@);
    }
    while k > 0
        invariant
            k <= env@.len(),
            env_map(env@).dom().contains(id@) == env_map(env@.subrange(0, k as int)).dom().contains(
                id@,
            ),
            env_map(env@).dom().contains(id@) ==> env_map(env@)[id@] == env_map(
                env@.subrange(0, k as int),
            )[id@],
        decreases k,
    {
        proof {
            let cur = env@.subrange(0, k as int);
            assert(cur.drop_last() =~= env@.subrange(0, k - 1));
            assert(cur.last() == env@[k - 1]);
        }
        let pr = &env[k - 1];
        if pr.0 == *id {
            return Some(pr.1);
        }
        k -= 1;
    }
    proof {
        assert(env@.subrange(0, 0) =~= Seq::<(String, i32)>::empty());
    }
    None
}

/// Binds an identifier to a value, shadowing any earlier binding.
fn env_set(env: &mut Vec<(String, i32)>, id: &String, v: i32)
    ensures
        env_map(final(env)@) == env_map(old(env)@).insert(id@, v as int),
{
    env.push((id.clone(), v));
    proof {
        assert(final(env)@.drop_last() =~= old(env)@);
    }
}

/// Interprets a statement: updates the environment and appends every line its
/// print statements emit. The program must evaluate without an undefined
/// identifier, division by zero, or 32-bit overflow.
pub fn stm_interp(stm: &AStm, map: &mut Vec<(String, i32)>, out: &mut Vec<Vec<i32>>)
    requires
        eval_stm(*stm, env_map(old(map)@)) is Some,
    ensures
        env_map(final(map)@) == eval_stm(*stm, env_map(old(map)@))->Some_0.0,
        lines_view(final(out)@) == lines_view(old(out)@) + eval_stm(
            *stm,
            env_map(old(map)@),
        )->Some_0.1,
    decreases *stm,
{
    match stm {
        AStm::Compound { stm1, stm2 } => {
            stm_interp(stm1, map, out);
            stm_interp(stm2, map, out);
            proof {
                let r1 = eval_stm(**stm1, env_map(old(map)@))->Some_0;
                let r2 = eval_stm(**stm2, r1.0)->Some_0;
                assert(lines_view(old(out)@) + (r1.1 + r2.1) =~= (lines_view(old(out)@) + r1.1)
                    + r2.1);
            }
        },
        AStm::Assign { id, exp } => {
            let v = exp_interp(exp, map, out);
            env_set(map, id, v);
        },
        AStm::Print { list } => {
            let vals = list_interp(list, map, out);
            let ghost r = eval_list(*list, env_map(old(map)@))->Some_0;
            let ghost mid = out@;
            out.push(vals);
            proof {
                assert(lines_view(out@) =~= lines_view(mid) + seq![
                    vals@.map_values(|x: i32| x as int),
                ]);
                assert(lines_view(old(out)@) + (r.2 + seq![r.0]) =~= (lines_view(old(out)@) + r.2)
                    + seq![r.0]);
            }
        },
    }
}

/// Interprets an expression: its value, with the environment updated and
/// lines appended as its side effects demand.
pub fn exp_interp(exp: &AExp, map: &mut Vec<(String, i32)>, out: &mut Vec<Vec<i32>>) -> (r: i32)
    requires
        eval_exp(*exp, env_map(old(map)@)) is Some,
    ensures
        r as int == eval_exp(*exp, env_map(old(map)@))->Some_0.0,
        env_map(final(map)@) == eval_exp(*exp, env_map(old(map)@))->Some_0.1,
        lines_view(final(out)@) == lines_view(old(out)@) + eval_exp(
            *exp,
            env_map(old(map)@),
        )->Some_0.2,
    decreases *exp,
{
    match exp {
        AExp::Id(id) => {
            let v = match env_get(map, id) {
                Some(v) => v,
                None => vstd::pervasive::unreached(),
            };
            proof {
                assert(lines_view(out@) + Seq::<Seq<int>>::empty() =~= lines_view(out@));
            }
            v
        },
        AExp::Num(nm) => {
            proof {
                assert(lines_view(out@) + Seq::<Seq<int>>::empty() =~= lines_view(out@));
            }
            *nm
        },
        AExp::Op { left, oper, right } => {
            let lv = exp_interp(left, map, out);
            let rv = exp_interp(right, map, out);
            let ghost r1 = eval_exp(**left, env_map(old(map)@))->Some_0;
            let ghost r2 = eval_exp(**right, r1.1)->Some_0;
            proof {
                assert(lines_view(old(out)@) + (r1.2 + r2.2) =~= (lines_view(old(out)@) + r1.2)
                    + r2.2);
            }
            let v = match oper {
                ABinop::Plus => lv.checked_add(rv),
                ABinop::Minus => lv.checked_sub(rv),
                ABinop::Times => lv.checked_mul(rv),
                ABinop::Div => lv.checked_div(rv),
            };
            match v {
                Some(v) => v,
                None => vstd::pervasive::unreached(),
            }
        },
        AExp::Eseq { stm, exp } => {
            stm_interp(stm, map, out);
            let v = exp_interp(exp, map, out);
            proof {
                let r1 = eval_stm(**stm, env_map(old(map)@))->Some_0;
                let r2 = eval_exp(**exp, r1.0)->Some_0;
                assert(lines_view(old(out)@) + (r1.1 + r2.2) =~= (lines_view(old(out)@) + r1.1)
                    + r2.2);
            }
            v
        },
    }
}

/// Interprets an expression list, returning the values to print: the tail is
/// evaluated before the head, and each level reverses its accumulated values,
/// exactly as the evaluator states.
pub fn list_interp(list: &AExpList, map: &mut Vec<(String, i32)>, out: &mut Vec<Vec<i32>>) -> (r:
    Vec<i32>)
    requires
        eval_list(*list, env_map(old(map)@)) is Some,
    ensures
        r@.map_values(|x: i32| x as int) == eval_list(*list, env_map(old(map)@))->Some_0.0,
        env_map(final(map)@) == eval_list(*list, env_map(old(map)@))->Some_0.1,
        lines_view(final(out)@) == lines_view(old(out)@) + eval_list(
            *list,
            env_map(old(map)@),
        )->Some_0.2,
    decreases *list,
{
    match list {
        AExpList::Pair { head, tail } => {
            let mut l = list_interp(tail, map, out);
            let v = exp_interp(head, map, out);
            let ghost r1 = eval_list(**tail, env_map(old(map)@))->Some_0;
            let ghost r2 = eval_exp(**head, r1.1)->Some_0;
            proof {
                assert(lines_view(old(out)@) + (r1.2 + r2.2) =~= (lines_view(old(out)@) + r1.2)
                    + r2.2);
            }
            l.push(v);
            let rev = vec_reversed(&l);
            proof {
                assert(l@.map_values(|x: i32| x as int) =~= r1.0.push(r2.0));
                assert(rev@.map_values(|x: i32| x as int) =~= l@.map_values(
                    |x: i32| x as int,
                ).reverse());
            }
            rev
        },
        AExpList::Last(e) => {
            let v = exp_interp(e, map, out);
            let mut l: Vec<i32> = Vec::new();
            l.push(v);
            proof {
                assert(l@.map_values(|x: i32| x as int) =~= seq![
                    eval_exp(**e, env_map(old(map)@))->Some_0.0,
                ]);
            }
            l
        },
    }
}

/// A reversed copy of a vector.
fn vec_reversed(v: &Vec<i32>) -> (r: Vec<i32>)
    ensures
        r@ == v@.reverse(),
{
    let n = v.len();
    let mut r: Vec<i32> = Vec::new();
    let mut k: usize = 0;
    while k < n
        invariant
            k <= n,
            n == v@.len(),
            r@.len() == k,
            forall|i: int| 0 <= i < k ==> r@[i] == v@[n - 1 - i],
        decreases n - k,
    {
        r.push(v[n - 1 - k]);
        k += 1;
    }
    proof {
        assert(r@ =~= v@.reverse());
    }
    r
}

/// Runs a whole program in an empty environment and returns the lines its
/// print statements emit, one vector of values per line.
pub fn interp(stm: &AStm) -> (out: Vec<Vec<i32>>)
    requires
        eval_stm(*stm, Map::<Seq<char>, int>::empty()) is Some,
    ensures
        lines_view(out@) == eval_stm(*stm, Map::<Seq<char>, int>::empty())->Some_0.1,
{
    let mut map: Vec<(String, i32)> = Vec::new();
    let mut out: Vec<Vec<i32>> = Vec::new();
    proof {
        assert(env_map(map@) =~= Map::<Seq<char>, int>::empty());
        assert(lines_view(out@) =~= Seq::<Seq<int>>::empty());
    }
    stm_interp(stm, &mut map, &mut out);
    proof {
        assert(Seq::<Seq<int>>::empty() + eval_stm(
            *stm,
            Map::<Seq<char>, int>::empty(),
        )->Some_0.1 =~= eval_stm(*stm, Map::<Seq<char>, int>::empty())->Some_0.1);
    }
    out
}

} // verus!
