//! Position oracle: an ordered index of the offsets at which each source line
//! begins, built once per compilation unit, and the conversion from an
//! absolute offset to a one-based line number and a zero-based column.

use vstd::prelude::*;

verus! {

/// A line/column pair attached to tokens and AST leaves. Lines are one-based,
/// columns are zero-based offsets from the start of the containing line.
#[derive(Debug, PartialEq, Eq, Structural, Clone, Copy)]
pub struct PosInfo {
    pub line: usize,
    pub col: usize,
}

/// Offset `j` starts a new line: it immediately follows a line terminator.
/// A `\r\n` pair is a single terminator (the start is after the `\n`); an
/// isolated `\n`, and a `\r` not followed by `\n` (including a trailing one),
/// each end a line on their own.
pub open spec fn is_line_boundary(s: Seq<char>, j: int) -> bool {
    &&& 1 <= j <= s.len()
    &&& (s[j - 1] == '\n' || (s[j - 1] == '\r' && (j == s.len() || s[j] != '\n')))
}

/// The line-start index for the prefix scanned up to offset `i`: offset 0,
/// followed by every line boundary at an offset of at most `i`, in order.
pub open spec fn starts_upto(s: Seq<char>, i: int) -> Seq<usize>
    decreases i,
{
    if i <= 0 {
        seq![0usize]
    } else {
        starts_upto(s, i - 1) + if is_line_boundary(s, i) {
            seq![i as usize]
        } else {
            Seq::<usize>::empty()
        }
    }
}

/// All line starts of a source text: offset 0 and the offset immediately
/// following every line terminator.
pub open spec fn line_starts(s: Seq<char>) -> Seq<usize> {
    starts_upto(s, s.len() as int)
}

/// A well-formed index: non-empty, begins with offset 0, strictly increasing.
pub open spec fn wf_index(idx: Seq<usize>) -> bool {
    &&& idx.len() >= 1
    &&& idx[0] == 0
    &&& forall|i: int, j: int| 0 <= i < j < idx.len() ==> idx[i] < idx[j]
}

/// The number of indexed line starts at offsets of at most `pos`; in a
/// well-formed index this is the one-based line number containing `pos`.
pub open spec fn rank(idx: Seq<usize>, pos: int) -> int
    decreases idx.len(),
{
    if idx.len() == 0 {
        0
    } else if idx.last() <= pos {
        idx.len() as int
    } else {
        rank(idx.drop_last(), pos)
    }
}

/// The position of offset `pos` in an indexed text: the line is the one-based
/// rank of the greatest line start that is at most `pos`, and the column is
/// `pos` minus that line start.
pub open spec fn position_at(idx: Seq<usize>, pos: int) -> PosInfo {
    let k = rank(idx, pos);
    PosInfo { line: k as usize, col: (pos - idx[k - 1]) as usize }
}

/// Every element of `starts_upto(s, i)` is a line start: 0 first, then the
/// boundaries up to `i` in strictly increasing order, each at most `i`.
pub proof fn lemma_starts_upto_wf(s: Seq<char>, i: int)
    requires
        i <= usize::MAX,
    ensures
        wf_index(starts_upto(s, i)),
        forall|k: int| 0 <= k < starts_upto(s, i).len() ==> starts_upto(s, i)[k] <= (if i <= 0 { 0int } else { i }),
        forall|j: int| 1 <= j <= i ==> (is_line_boundary(s, j) <==> starts_upto(s, i).contains(j as usize)),
    decreases i,
{
    if i <= 0 {
        assert(starts_upto(s, i) =~= seq![0usize]);
    } else {
        lemma_starts_upto_wf(s, i - 1);
        let prev = starts_upto(s, i - 1);
        let cur = starts_upto(s, i);
        if is_line_boundary(s, i) {
            assert(cur =~= prev + seq![i as usize]);
        } else {
            assert(cur =~= prev);
        }
        assert forall|j: int| 1 <= j <= i implies (is_line_boundary(s, j) <==> cur.contains(
            j as usize,
        )) by {
            if is_line_boundary(s, j) {
                if j <= i - 1 {
                    assert(prev.contains(j as usize));
                    let w = choose|w: int| 0 <= w < prev.len() && prev[w] == j as usize;
                    assert(cur[w] == j as usize);
                } else {
                    assert(cur[cur.len() - 1] == i as usize);
                }
            }
            if cur.contains(j as usize) {
                let w = choose|w: int| 0 <= w < cur.len() && cur[w] == j as usize;
                if w < prev.len() {
                    assert(prev[w] == j as usize);
                    assert(prev.contains(j as usize));
                    if j == i {
                        assert(prev[w] <= i - 1);
                        assert(false);
                    }
                } else {
                    assert(cur.len() > prev.len());
                    assert(is_line_boundary(s, i));
                    assert(w == cur.len() - 1);
                    assert(cur[w] == i as usize);
                    assert(j == i);
                }
            }
        }
    }
}

/// Convenience form of `lemma_starts_upto_wf` for the whole text.
pub proof fn lemma_line_starts_wf(s: Seq<char>)
    requires
        s.len() <= usize::MAX,
    ensures
        wf_index(line_starts(s)),
        forall|k: int| 0 <= k < line_starts(s).len() ==> line_starts(s)[k] <= s.len(),
{
    lemma_starts_upto_wf(s, s.len() as int);
}

/// In a well-formed index the rank of a non-negative offset is between 1 and
/// the index length, the line start of that rank is at most the offset, and
/// the next line start (if any) is beyond it.
pub proof fn lemma_rank_props(idx: Seq<usize>, pos: int)
    requires
        wf_index(idx),
        pos >= 0,
    ensures
        1 <= rank(idx, pos) <= idx.len(),
        idx[rank(idx, pos) - 1] <= pos,
        rank(idx, pos) < idx.len() ==> idx[rank(idx, pos)] > pos,
    decreases idx.len(),
{
    if idx.len() == 1 {
        assert(idx.last() == idx[0]);
    } else if idx.last() <= pos {
    } else {
        let d = idx.drop_last();
        assert(wf_index(d));
        lemma_rank_props(d, pos);
        assert(rank(idx, pos) == rank(d, pos));
        assert(idx[rank(idx, pos) - 1] == d[rank(d, pos) - 1]);
        if rank(idx, pos) < idx.len() - 1 {
            assert(idx[rank(idx, pos)] == d[rank(d, pos)]);
        }
    }
}

/// Copies the characters of a string into a vector for constant-time access.
pub fn str_chars(s: &str) -> (v: Vec<char>)
    ensures
        v@ == s@,
{
    let n: usize = s.unicode_len();
    let mut v: Vec<char> = Vec::new();
    let mut i: usize = 0;
    while i < n
        invariant
            i <= n,
            n == s@.len(),
            v@ == s@.subrange(0, i as int),
        decreases n - i,
    {
        v.push(s.get_char(i));
        proof {
            assert(s@.subrange(0, (i + 1) as int) =~= s@.subrange(0, i as int).push(s@[i as int]));
        }
        i += 1;
    }
    proof {
        assert(v@ =~= s@);
    }
    v
}

/// Discards the line index, as required before indexing another text.
pub fn reset_line_pos(line_pos: &mut Vec<usize>)
    ensures
        final(line_pos)@ == Seq::<usize>::empty(),
{
    line_pos.clear();
}

/// Scans `s` once and fills `line_pos` with every line start: offset 0 and
/// the offset immediately following each line terminator, where a `\r\n` pair
/// counts as a single terminator. The index must have been reset first.
pub fn parse_line_pos(s: &str, line_pos: &mut Vec<usize>)
    requires
        old(line_pos)@.len() == 0,
    ensures
        final(line_pos)@ == line_starts(s@),
        wf_index(final(line_pos)@),
{
    let chars = str_chars(s);
    let n: usize = chars.len();
    line_pos.push(0);
    proof {
        assert(line_pos@ =~= starts_upto(s@, 0));
    }
    let mut i: usize = 0;
    while i < n
        invariant
            i <= n,
            chars@ == s@,
            n == s@.len(),
            line_pos@ == starts_upto(s@, i as int),
        decreases n - i,
    {
        let j = i + 1;
        let c = chars[i];
        let boundary = if c == '\n' {
            true
        } else if c == '\r' {
            j == n || chars[j] != '\n'
        } else {
            false
        };
        proof {
            assert(boundary == is_line_boundary(s@, j as int));
        }
        if boundary {
            line_pos.push(j);
            proof {
                assert(line_pos@ =~= starts_upto(s@, i as int) + seq![j]);
                assert(line_pos@ =~= starts_upto(s@, j as int));
            }
        } else {
            proof {
                assert(line_pos@ =~= starts_upto(s@, i as int) + Seq::<usize>::empty());
                assert(line_pos@ =~= starts_upto(s@, j as int));
            }
        }
        i = j;
    }
    proof {
        lemma_line_starts_wf(s@);
    }
}

/// Converts an absolute offset into a line/column pair by locating the
/// greatest indexed line start that is at most `pos`. The index must have
/// been built by `parse_line_pos` for the current text.
pub fn get_position_info(line_pos: &Vec<usize>, pos: usize) -> (r: PosInfo)
    requires
        wf_index(line_pos@),
    ensures
        r == position_at(line_pos@, pos as int),
{
    let mut k: usize = line_pos.len();
    proof {
        assert(line_pos@.subrange(0, k as int) =~= line_pos@);
    }
    while k > 1 && line_pos[k - 1] > pos
        invariant
            1 <= k <= line_pos@.len(),
            wf_index(line_pos@),
            rank(line_pos@, pos as int) == rank(line_pos@.subrange(0, k as int), pos as int),
        decreases k,
    {
        proof {
            let cur = line_pos@.subrange(0, k as int);
            assert(cur.last() == line_pos@[k - 1]);
            assert(cur.drop_last() =~= line_pos@.subrange(0, k - 1));
        }
        k -= 1;
    }
    proof {
        let cur = line_pos@.subrange(0, k as int);
        assert(cur.last() == line_pos@[k - 1]);
        if k == 1 {
            assert(line_pos@[0] == 0);
        }
        assert(cur.last() <= pos);
        assert(rank(cur, pos as int) == k);
        lemma_rank_props(line_pos@, pos as int);
    }
    PosInfo { line: k, col: pos - line_pos[k - 1] }
}

/// For every indexed text, offset 0 lies at line 1, column 0.
pub proof fn lemma_position_of_zero(s: Seq<char>)
    requires
        s.len() <= usize::MAX,
    ensures
        position_at(line_starts(s), 0) == (PosInfo { line: 1, col: 0 }),
{
    lemma_line_starts_wf(s);
    lemma_rank_zero(line_starts(s));
}

/// In a well-formed index, offset 0 has rank 1.
proof fn lemma_rank_zero(idx: Seq<usize>)
    requires
        wf_index(idx),
    ensures
        rank(idx, 0) == 1,
    decreases idx.len(),
{
    if idx.len() == 1 {
        assert(idx.last() == idx[0]);
    } else {
        assert(idx.last() == idx[idx.len() - 1] > idx[0]);
        assert(wf_index(idx.drop_last()));
        lemma_rank_zero(idx.drop_last());
    }
}

/// Two offsets on the same line keep their order as columns: if `o1 < o2`
/// and both resolve to the same line, the column of `o1` is smaller.
pub proof fn lemma_same_line_column_order(idx: Seq<usize>, o1: int, o2: int)
    requires
        wf_index(idx),
        idx.len() <= usize::MAX,
        0 <= o1 < o2 <= usize::MAX,
        position_at(idx, o1).line == position_at(idx, o2).line,
    ensures
        position_at(idx, o1).col < position_at(idx, o2).col,
{
    lemma_rank_props(idx, o1);
    lemma_rank_props(idx, o2);
}

/// A `\r\n` pair contributes exactly one line boundary: none right after the
/// `\r`, one right after the `\n`.
pub proof fn lemma_crlf_single_boundary(s: Seq<char>, i: int)
    requires
        0 <= i,
        i + 1 < s.len(),
        s[i] == '\r',
        s[i + 1] == '\n',
    ensures
        !is_line_boundary(s, i + 1),
        is_line_boundary(s, i + 2),
{
}

/// Re-indexing the same text yields the same position for every offset: the
/// index built by `parse_line_pos` is a pure function of the text, so two
/// builds over the same text agree everywhere.
pub proof fn lemma_reindex_idempotent(idx1: Seq<usize>, idx2: Seq<usize>, s: Seq<char>)
    requires
        idx1 == line_starts(s),
        idx2 == line_starts(s),
    ensures
        forall|pos: int| position_at(idx1, pos) == position_at(idx2, pos),
{
}

} // verus!
