//! Token scanner: turns source text into a sequence of typed tokens, each
//! stamped with its starting position. Block comments are discarded, keyword
//! spellings take priority over identifiers, the two-character symbols are
//! matched before their one-character prefixes, string literals have their
//! line-continuation escapes removed, and an unrecognized character becomes an
//! error token without stopping the scan.

use vstd::pervasive::unreached;
use vstd::prelude::*;

use crate::position::{
    get_position_info, line_starts, parse_line_pos, position_at, str_chars, wf_index, PosInfo,
};
use crate::token::{kw_or_id, tok_view, Lexeme, TokKind, Token, ValueInfo};

verus! {

/// Whitespace separates tokens and produces none: space, tab, newline,
/// carriage return, form feed.
pub open spec fn is_ws(c: char) -> bool {
    c == ' ' || c == '\t' || c == '\n' || c == '\r' || c == '\u{000c}'
}

/// A decimal digit.
pub open spec fn is_digit(c: char) -> bool {
    '0' as u32 <= c as u32 && c as u32 <= '9' as u32
}

/// A letter, the only class that may start an identifier.
pub open spec fn is_letter(c: char) -> bool {
    ('a' as u32 <= c as u32 && c as u32 <= 'z' as u32) || ('A' as u32 <= c as u32 && c as u32
        <= 'Z' as u32)
}

/// A character that may continue an identifier.
pub open spec fn is_id_char(c: char) -> bool {
    is_letter(c) || is_digit(c) || c == '_'
}

/// An octal digit, as used inside a string escape.
pub open spec fn is_octal(c: char) -> bool {
    '0' as u32 <= c as u32 && c as u32 <= '7' as u32
}

/// A character accepted after `\^` in a control-code escape.
pub open spec fn is_caret_char(c: char) -> bool {
    is_letter(c) || c == '^' || c == '\\' || c == '[' || c == ']' || c == '_'
}

/// The end of the identifier-character run beginning at `i`.
pub open spec fn run_idc(s: Seq<char>, i: int) -> int
    decreases s.len() - i when 0 <= i <= s.len()
{
    if i < s.len() && is_id_char(s[i]) {
        run_idc(s, i + 1)
    } else {
        i
    }
}

/// The end of the digit run beginning at `i`.
pub open spec fn run_digits(s: Seq<char>, i: int) -> int
    decreases s.len() - i when 0 <= i <= s.len()
{
    if i < s.len() && is_digit(s[i]) {
        run_digits(s, i + 1)
    } else {
        i
    }
}

/// The first offset `j >= i` where `*/` occurs, if any.
pub open spec fn find_star_slash(s: Seq<char>, i: int) -> Option<int>
    decreases s.len() - i when 0 <= i
{
    if i + 2 > s.len() {
        None
    } else if s[i] == '*' && s[i + 1] == '/' {
        Some(i)
    } else {
        find_star_slash(s, i + 1)
    }
}

/// Scans a string-literal body from `i` (just past the opening quote or the
/// last consumed escape): the offset just past the closing quote, or `None`
/// if the literal is malformed. Recognized escapes: `\"`, `\\`, `\n`, `\t`,
/// caret control codes, three-digit octal codes beginning with 0 or 1, and a
/// line continuation (backslash, whitespace run, backslash).
pub open spec fn str_end(s: Seq<char>, i: int) -> Option<int>
    decreases s.len() - i, 1int when 0 <= i
{
    if i >= s.len() {
        None
    } else if s[i] == '"' {
        Some(i + 1)
    } else if s[i] == '\n' {
        None
    } else if s[i] == '\\' {
        if i + 1 >= s.len() {
            None
        } else if s[i + 1] == '"' || s[i + 1] == '\\' || s[i + 1] == 'n' || s[i + 1] == 't' {
            str_end(s, i + 2)
        } else if s[i + 1] == '^' {
            if i + 2 < s.len() && is_caret_char(s[i + 2]) {
                str_end(s, i + 3)
            } else {
                None
            }
        } else if s[i + 1] == '0' || s[i + 1] == '1' {
            if i + 3 < s.len() && is_octal(s[i + 2]) && is_octal(s[i + 3]) {
                str_end(s, i + 4)
            } else {
                None
            }
        } else if is_ws(s[i + 1]) {
            str_cont(s, i + 2)
        } else {
            None
        }
    } else {
        str_end(s, i + 1)
    }
}

/// Scans the whitespace run of a line-continuation escape, which must be
/// closed by a second backslash before the literal body resumes.
pub open spec fn str_cont(s: Seq<char>, i: int) -> Option<int>
    decreases s.len() - i, 0int when 0 <= i
{
    if i >= s.len() {
        None
    } else if is_ws(s[i]) {
        str_cont(s, i + 1)
    } else if s[i] == '\\' {
        str_end(s, i + 1)
    } else {
        None
    }
}

/// The length of the whitespace run of `t` beginning at `i`.
pub open spec fn ws_run(t: Seq<char>, i: int) -> int
    decreases t.len() - i when 0 <= i <= t.len()
{
    if i < t.len() && is_ws(t[i]) {
        1 + ws_run(t, i + 1)
    } else {
        0
    }
}

/// The length of a line-continuation escape at the head of `t`, if one starts
/// there: a backslash, at least one whitespace character, and a backslash.
pub open spec fn cont_len(t: Seq<char>) -> Option<int> {
    if t.len() >= 3 && t[0] == '\\' {
        let w = ws_run(t, 1);
        if w >= 1 && 1 + w < t.len() && t[1 + w] == '\\' {
            Some(w + 2)
        } else {
            None
        }
    } else {
        None
    }
}

/// The normalized value of a string literal slice: every line-continuation
/// escape is removed entirely, scanning left to right; everything else is
/// kept as written.
pub open spec fn strip_cont(t: Seq<char>) -> Seq<char>
    decreases t.len(),
{
    if t.len() == 0 {
        t
    } else if cont_len(t) is Some {
        strip_cont(t.skip(cont_len(t)->Some_0))
    } else {
        seq![t[0]] + strip_cont(t.drop_first())
    }
}

/// The numeric value of a run of decimal digits.
pub open spec fn dec_val(t: Seq<char>) -> int
    decreases t.len(),
{
    if t.len() == 0 {
        0
    } else {
        dec_val(t.drop_last()) * 10 + (t.last() as u32 - '0' as u32)
    }
}

/// The two-character symbol starting at `i`, if any; these are matched before
/// their one-character prefixes.
pub open spec fn two_sym(s: Seq<char>, i: int) -> Option<TokKind> {
    if 0 <= i && i + 2 <= s.len() {
        if s[i] == ':' && s[i + 1] == '=' {
            Some(TokKind::Assign)
        } else if s[i] == '<' && s[i + 1] == '=' {
            Some(TokKind::Le)
        } else if s[i] == '<' && s[i + 1] == '>' {
            Some(TokKind::Neq)
        } else if s[i] == '>' && s[i + 1] == '=' {
            Some(TokKind::Ge)
        } else {
            None
        }
    } else {
        None
    }
}

/// The one-character symbol `c` stands for, if any.
pub open spec fn one_sym(c: char) -> Option<TokKind> {
    if c == ',' {
        Some(TokKind::Comma)
    } else if c == ':' {
        Some(TokKind::Colon)
    } else if c == ';' {
        Some(TokKind::Semicolon)
    } else if c == '(' {
        Some(TokKind::Lparen)
    } else if c == ')' {
        Some(TokKind::Rparen)
    } else if c == '[' {
        Some(TokKind::Lbrack)
    } else if c == ']' {
        Some(TokKind::Rbrack)
    } else if c == '{' {
        Some(TokKind::Lbrace)
    } else if c == '}' {
        Some(TokKind::Rbrace)
    } else if c == '.' {
        Some(TokKind::Dot)
    } else if c == '+' {
        Some(TokKind::Plus)
    } else if c == '-' {
        Some(TokKind::Minus)
    } else if c == '*' {
        Some(TokKind::Times)
    } else if c == '/' {
        Some(TokKind::Divide)
    } else if c == '=' {
        Some(TokKind::Eq)
    } else if c == '<' {
        Some(TokKind::Lt)
    } else if c == '>' {
        Some(TokKind::Gt)
    } else if c == '&' {
        Some(TokKind::And)
    } else if c == '|' {
        Some(TokKind::Or)
    } else {
        None
    }
}

/// Bounds of an identifier-character run.
pub proof fn lemma_run_idc(s: Seq<char>, i: int)
    requires
        0 <= i <= s.len(),
    ensures
        i <= run_idc(s, i) <= s.len(),
        forall|k: int| i <= k < run_idc(s, i) ==> is_id_char(s[k]),
        run_idc(s, i) < s.len() ==> !is_id_char(s[run_idc(s, i)]),
    decreases s.len() - i,
{
    if i < s.len() && is_id_char(s[i]) {
        lemma_run_idc(s, i + 1);
    }
}

/// Bounds of a digit run.
pub proof fn lemma_run_digits(s: Seq<char>, i: int)
    requires
        0 <= i <= s.len(),
    ensures
        i <= run_digits(s, i) <= s.len(),
        forall|k: int| i <= k < run_digits(s, i) ==> is_digit(s[k]),
        run_digits(s, i) < s.len() ==> !is_digit(s[run_digits(s, i)]),
    decreases s.len() - i,
{
    if i < s.len() && is_digit(s[i]) {
        lemma_run_digits(s, i + 1);
    }
}

/// Characterization of the first `*/` occurrence at or after `i`.
pub proof fn lemma_find_star_slash(s: Seq<char>, i: int)
    requires
        0 <= i,
    ensures
        find_star_slash(s, i) matches Some(j) ==> i <= j && j + 2 <= s.len() && s[j] == '*' && s[j
            + 1] == '/' && forall|m: int| i <= m < j ==> !((#[trigger] s[m]) == '*' && s[m + 1] == '/'),
        find_star_slash(s, i) is None ==> forall|m: int|
            i <= m && m + 2 <= s.len() ==> !((#[trigger] s[m]) == '*' && s[m + 1] == '/'),
    decreases s.len() - i,
{
    if i + 2 > s.len() {
    } else if s[i] == '*' && s[i + 1] == '/' {
    } else {
        lemma_find_star_slash(s, i + 1);
    }
}

/// A successful string-literal scan always moves forward and stays in bounds.
pub proof fn lemma_str_end_bounds(s: Seq<char>, i: int)
    requires
        0 <= i,
    ensures
        str_end(s, i) matches Some(j) ==> i < j <= s.len(),
        str_cont(s, i) matches Some(j) ==> i < j <= s.len(),
    decreases s.len() - i,
{
    if i >= s.len() {
    } else {
        if i + 1 <= s.len() {
            lemma_str_end_bounds(s, i + 1);
        }
        if i + 2 <= s.len() {
            lemma_str_end_bounds(s, i + 2);
        }
        if i + 3 <= s.len() {
            lemma_str_end_bounds(s, i + 3);
        }
        if i + 4 <= s.len() {
            lemma_str_end_bounds(s, i + 4);
        }
    }
}

/// The token sequence of the source suffix beginning at offset `i`:
/// whitespace and block comments produce nothing; identifiers, literals,
/// symbols and keywords each produce one token under longest-match-first
/// rules; any other character produces one error token and scanning goes on.
pub open spec fn lex(s: Seq<char>, i: int) -> Seq<Lexeme>
    decreases s.len() - i when 0 <= i via lex_decreases
{
    if i < 0 || i >= s.len() {
        Seq::empty()
    } else {
        let c = s[i];
        if is_ws(c) {
            lex(s, i + 1)
        } else if c == '/' && i + 1 < s.len() && s[i + 1] == '*' && find_star_slash(s, i + 2)
            is Some {
            lex(s, find_star_slash(s, i + 2)->Some_0 + 2)
        } else if is_letter(c) {
            let j = run_idc(s, i + 1);
            seq![Lexeme { start: i, kind: kw_or_id(s.subrange(i, j)) }] + lex(s, j)
        } else if is_digit(c) {
            let j = run_digits(s, i);
            seq![Lexeme { start: i, kind: TokKind::IntLit(dec_val(s.subrange(i, j))) }] + lex(s, j)
        } else if c == '"' && str_end(s, i + 1) is Some {
            let j = str_end(s, i + 1)->Some_0;
            seq![Lexeme { start: i, kind: TokKind::StrLit(strip_cont(s.subrange(i, j))) }] + lex(
                s,
                j,
            )
        } else if two_sym(s, i) is Some {
            seq![Lexeme { start: i, kind: two_sym(s, i)->Some_0 }] + lex(s, i + 2)
        } else if one_sym(c) is Some {
            seq![Lexeme { start: i, kind: one_sym(c)->Some_0 }] + lex(s, i + 1)
        } else {
            seq![Lexeme { start: i, kind: TokKind::Wrong(seq![c]) }] + lex(s, i + 1)
        }
    }
}

#[via_fn]
proof fn lex_decreases(s: Seq<char>, i: int) {
    if 0 <= i < s.len() {
        lemma_find_star_slash(s, i + 2);
        if 0 <= i + 1 <= s.len() {
            lemma_run_idc(s, i + 1);
            lemma_str_end_bounds(s, i + 1);
        }
        lemma_run_digits(s, i);
    }
}

/// Every integer literal of the text fits an unsigned 64-bit value; integer
/// overflow during scanning is fatal to the compilation unit.
pub open spec fn ints_fit(s: Seq<char>) -> bool {
    forall|k: int|
        0 <= k < lex(s, 0).len() ==> (#[trigger] lex(s, 0)[k].kind matches TokKind::IntLit(v)
            ==> v <= u64::MAX)
}

/// Whitespace test, as executable code.
fn is_ws_e(c: char) -> (r: bool)
    ensures
        r == is_ws(c),
{
    c == ' ' || c == '\t' || c == '\n' || c == '\r' || c == '\u{000c}'
}

/// Digit test, as executable code.
fn is_digit_e(c: char) -> (r: bool)
    ensures
        r == is_digit(c),
{
    let u = c as u32;
    48 <= u && u <= 57
}

/// Letter test, as executable code.
fn is_letter_e(c: char) -> (r: bool)
    ensures
        r == is_letter(c),
{
    let u = c as u32;
    (97 <= u && u <= 122) || (65 <= u && u <= 90)
}

/// Identifier-character test, as executable code.
fn is_id_char_e(c: char) -> (r: bool)
    ensures
        r == is_id_char(c),
{
    is_letter_e(c) || is_digit_e(c) || c == '_'
}

/// Octal-digit test, as executable code.
fn is_octal_e(c: char) -> (r: bool)
    ensures
        r == is_octal(c),
{
    let u = c as u32;
    48 <= u && u <= 55
}

/// Caret-escape-character test, as executable code.
fn is_caret_char_e(c: char) -> (r: bool)
    ensures
        r == is_caret_char(c),
{
    is_letter_e(c) || c == '^' || c == '\\' || c == '[' || c == ']' || c == '_'
}

/// Scans to the end of the identifier-character run beginning at `from`.
fn scan_idc(chars: &Vec<char>, from: usize) -> (j: usize)
    requires
        from <= chars@.len(),
    ensures
        j as int == run_idc(chars@, from as int),
        from <= j <= chars@.len(),
{
    let n = chars.len();
    let mut j = from;
    while j < n && is_id_char_e(chars[j])
        invariant
            from <= j <= n,
            n == chars@.len(),
            run_idc(chars@, from as int) == run_idc(chars@, j as int),
        decreases n - j,
    {
        j += 1;
    }
    j
}

/// Scans to the end of the digit run beginning at `from`.
fn scan_digits(chars: &Vec<char>, from: usize) -> (j: usize)
    requires
        from <= chars@.len(),
    ensures
        j as int == run_digits(chars@, from as int),
        from <= j <= chars@.len(),
{
    let n = chars.len();
    let mut j = from;
    while j < n && is_digit_e(chars[j])
        invariant
            from <= j <= n,
            n == chars@.len(),
            run_digits(chars@, from as int) == run_digits(chars@, j as int),
        decreases n - j,
    {
        j += 1;
    }
    j
}

/// Finds the first `*/` at or after `from`.
fn find_close(chars: &Vec<char>, from: usize) -> (r: Option<usize>)
    requires
        from <= chars@.len(),
    ensures
        r matches Some(j) ==> find_star_slash(chars@, from as int) == Some(j as int) && from <= j
            && j + 2 <= chars@.len(),
        r is None ==> find_star_slash(chars@, from as int) is None,
{
    let n = chars.len();
    let mut j = from;
    while n - j >= 2
        invariant
            from <= j <= n,
            n == chars@.len(),
            find_star_slash(chars@, from as int) == find_star_slash(chars@, j as int),
        decreases n - j,
    {
        if chars[j] == '*' && chars[j + 1] == '/' {
            return Some(j);
        }
        j += 1;
    }
    None
}

/// Scans a string-literal body, mirroring `str_end`.
fn str_scan(chars: &Vec<char>, i: usize) -> (r: Option<usize>)
    requires
        i <= chars@.len(),
    ensures
        r matches Some(j) ==> str_end(chars@, i as int) == Some(j as int) && i < j <= chars@.len(),
        r is None ==> str_end(chars@, i as int) is None,
    decreases chars@.len() - i, 1int,
{
    let n = chars.len();
    if i >= n {
        return None;
    }
    let c = chars[i];
    if c == '"' {
        Some(i + 1)
    } else if c == '\n' {
        None
    } else if c == '\\' {
        if i + 1 >= n {
            return None;
        }
        let e = chars[i + 1];
        if e == '"' || e == '\\' || e == 'n' || e == 't' {
            str_scan(chars, i + 2)
        } else if e == '^' {
            if n - i > 2 && is_caret_char_e(chars[i + 2]) {
                str_scan(chars, i + 3)
            } else {
                None
            }
        } else if e == '0' || e == '1' {
            if n - i > 3 && is_octal_e(chars[i + 2]) && is_octal_e(chars[i + 3]) {
                str_scan(chars, i + 4)
            } else {
                None
            }
        } else if is_ws_e(e) {
            cont_scan(chars, i + 2)
        } else {
            None
        }
    } else {
        str_scan(chars, i + 1)
    }
}

/// Scans a line-continuation escape, mirroring `str_cont`.
fn cont_scan(chars: &Vec<char>, i: usize) -> (r: Option<usize>)
    requires
        i <= chars@.len(),
    ensures
        r matches Some(j) ==> str_cont(chars@, i as int) == Some(j as int) && i < j
            <= chars@.len(),
        r is None ==> str_cont(chars@, i as int) is None,
    decreases chars@.len() - i, 0int,
{
    let n = chars.len();
    if i >= n {
        None
    } else if is_ws_e(chars[i]) {
        cont_scan(chars, i + 1)
    } else if chars[i] == '\\' {
        str_scan(chars, i + 1)
    } else {
        None
    }
}

/// Appends the normalized value of a string-literal slice to `out`, removing
/// every line-continuation escape.
fn strip_into(lit: &str, out: &mut String)
    ensures
        final(out)@ == old(out)@ + strip_cont(lit@),
    decreases lit@.len(),
{
    let n = lit.unicode_len();
    if n == 0 {
        proof {
            assert(old(out)@ + strip_cont(lit@) =~= old(out)@);
        }
        return ;
    }
    let c = lit.get_char(0);
    if c == '\\' && n >= 3 {
        let mut m: usize = 1;
        while m < n && is_ws_e(lit.get_char(m))
            invariant
                1 <= m <= n,
                n == lit@.len(),
                ws_run(lit@, 1) == m - 1 + ws_run(lit@, m as int),
            decreases n - m,
        {
            m += 1;
        }
        proof {
            assert(ws_run(lit@, m as int) == 0);
        }
        let w = m - 1;
        if w >= 1 && m < n && lit.get_char(m) == '\\' {
            proof {
                assert(cont_len(lit@) == Some(w + 2int));
            }
            let rest = lit.substring_char(m + 1, n);
            proof {
                assert(rest@ =~= lit@.skip(w + 2));
            }
            strip_into(rest, out);
            return ;
        }
        proof {
            assert(cont_len(lit@) is None);
        }
        let head = lit.substring_char(0, 1);
        out.append(head);
        let rest = lit.substring_char(1, n);
        proof {
            assert(rest@ =~= lit@.drop_first());
            assert(head@ =~= seq![lit@[0]]);
        }
        strip_into(rest, out);
    } else {
        proof {
            assert(cont_len(lit@) is None);
        }
        let head = lit.substring_char(0, 1);
        out.append(head);
        let rest = lit.substring_char(1, n);
        proof {
            assert(rest@ =~= lit@.drop_first());
            assert(head@ =~= seq![lit@[0]]);
        }
        strip_into(rest, out);
    }
}

/// The scanned tokens correspond one-for-one to the token sequence of the
/// text: same kind, same carried value, and the position stamped on each is
/// the line/column of its starting offset.
pub open spec fn tokens_correspond(r: Seq<Token>, gs: Seq<Lexeme>, s: Seq<char>) -> bool {
    &&& r.len() == gs.len()
    &&& forall|k: int|
        0 <= k < gs.len() ==> #[trigger] tok_view(r[k]) == (
        position_at(line_starts(s), gs[k].start),
        gs[k].kind,
        )
}

/// Appending a matching token keeps the correspondence.
proof fn lemma_correspond_push(r: Seq<Token>, gs: Seq<Lexeme>, s: Seq<char>, t: Token, g: Lexeme)
    requires
        tokens_correspond(r, gs, s),
        tok_view(t) == (position_at(line_starts(s), g.start), g.kind),
    ensures
        tokens_correspond(r.push(t), gs + seq![g], s),
{
    let r2 = r.push(t);
    let gs2 = gs + seq![g];
    assert forall|k: int| 0 <= k < gs2.len() implies #[trigger] tok_view(r2[k]) == (
        position_at(line_starts(s), gs2[k].start),
        gs2[k].kind,
    ) by {
        if k < gs.len() {
            assert(r2[k] == r[k]);
            assert(gs2[k] == gs[k]);
        } else {
            assert(r2[k] == t);
            assert(gs2[k] == g);
        }
    }
}

/// The value of a digit run is non-negative.
proof fn lemma_dec_val_nonneg(t: Seq<char>)
    requires
        forall|k: int| 0 <= k < t.len() ==> is_digit(#[trigger] t[k]),
    ensures
        dec_val(t) >= 0,
    decreases t.len(),
{
    if t.len() > 0 {
        lemma_dec_val_nonneg(t.drop_last());
    }
}

/// Extending a digit run never decreases its value.
proof fn lemma_dec_val_prefix(s: Seq<char>, i: int, a: int, b: int)
    requires
        0 <= i <= a <= b <= s.len(),
        forall|k: int| i <= k < b ==> is_digit(#[trigger] s[k]),
    ensures
        dec_val(s.subrange(i, a)) <= dec_val(s.subrange(i, b)),
    decreases b - a,
{
    if a < b {
        lemma_dec_val_prefix(s, i, a, b - 1);
        let t = s.subrange(i, b);
        assert(t.drop_last() =~= s.subrange(i, b - 1));
        assert(forall|k: int|
            0 <= k < s.subrange(i, b - 1).len() ==> is_digit(#[trigger] s.subrange(i, b - 1)[k]));
        lemma_dec_val_nonneg(s.subrange(i, b - 1));
        assert(dec_val(t) == dec_val(s.subrange(i, b - 1)) * 10 + (t.last() as u32 - '0' as u32));
    }
}

/// Parses the digit run `[i, j)` as an unsigned 64-bit value; `None` reports
/// that the written value does not fit.
fn parse_u64(chars: &Vec<char>, i: usize, j: usize) -> (r: Option<u64>)
    requires
        i <= j <= chars@.len(),
        forall|k: int| i <= k < j ==> is_digit(#[trigger] chars@[k]),
    ensures
        r matches Some(v) ==> v as int == dec_val(chars@.subrange(i as int, j as int)),
        r is None ==> dec_val(chars@.subrange(i as int, j as int)) > u64::MAX,
{
    let ghost s = chars@;
    let mut v: u64 = 0;
    let mut k = i;
    proof {
        assert(s.subrange(i as int, i as int) =~= Seq::<char>::empty());
    }
    while k < j
        invariant
            i <= k <= j <= s.len(),
            chars@ == s,
            forall|m: int| i <= m < j ==> is_digit(#[trigger] s[m]),
            v as int == dec_val(s.subrange(i as int, k as int)),
        decreases j - k,
    {
        let c = chars[k];
        let d: u64 = (c as u32 - 48) as u64;
        proof {
            assert(is_digit(s[k as int]));
            assert(s.subrange(i as int, k + 1).drop_last() =~= s.subrange(i as int, k as int));
            assert(s.subrange(i as int, k + 1).last() == s[k as int]);
            assert(dec_val(s.subrange(i as int, k + 1)) == dec_val(
                s.subrange(i as int, k as int),
            ) * 10 + d);
        }
        let m = match v.checked_mul(10) {
            Some(m) => m,
            None => {
                proof {
                    lemma_dec_val_prefix(s, i as int, k + 1, j as int);
                }
                return None;
            },
        };
        let w = match m.checked_add(d) {
            Some(w) => w,
            None => {
                proof {
                    lemma_dec_val_prefix(s, i as int, k + 1, j as int);
                }
                return None;
            },
        };
        v = w;
        k += 1;
    }
    Some(v)
}

/// String comparison against a fixed spelling.
fn word_eq(t: &String, w: &str) -> (r: bool)
    ensures
        r == (t@ == w@),
{
    let ws = String::from_str(w);
    *t == ws
}

/// Classifies a scanned word: a reserved keyword spelling becomes its own
/// token tag; anything else is an identifier.
fn classify_word(txt: String, info: PosInfo) -> (t: Token)
    ensures
        tok_view(t) == (info, kw_or_id(txt@)),
{
    if word_eq(&txt, "array") {
        Token::Array(info)
    } else if word_eq(&txt, "if") {
        Token::If(info)
    } else if word_eq(&txt, "then") {
        Token::Then(info)
    } else if word_eq(&txt, "else") {
        Token::Else(info)
    } else if word_eq(&txt, "while") {
        Token::While(info)
    } else if word_eq(&txt, "for") {
        Token::For(info)
    } else if word_eq(&txt, "to") {
        Token::To(info)
    } else if word_eq(&txt, "do") {
        Token::Do(info)
    } else if word_eq(&txt, "let") {
        Token::Let(info)
    } else if word_eq(&txt, "in") {
        Token::In(info)
    } else if word_eq(&txt, "end") {
        Token::End(info)
    } else if word_eq(&txt, "of") {
        Token::Of(info)
    } else if word_eq(&txt, "break") {
        Token::Break(info)
    } else if word_eq(&txt, "nil") {
        Token::Nil(info)
    } else if word_eq(&txt, "function") {
        Token::Function(info)
    } else if word_eq(&txt, "var") {
        Token::Var(info)
    } else if word_eq(&txt, "type") {
        Token::Type(info)
    } else {
        Token::Id(ValueInfo { info, v: txt })
    }
}

/// One scanned token and one advance step keep the running decomposition of
/// the whole token sequence.
proof fn lemma_lex_advance(s: Seq<char>, done0: Seq<Lexeme>, g: Lexeme, i: int, i2: int)
    requires
        lex(s, 0) == done0 + lex(s, i),
        lex(s, i) == seq![g] + lex(s, i2),
    ensures
        lex(s, 0) == (done0 + seq![g]) + lex(s, i2),
{
    assert(done0 + (seq![g] + lex(s, i2)) =~= (done0 + seq![g]) + lex(s, i2));
}

/// Appending a lexeme whose integer value (if any) fits keeps every integer
/// lexeme of the sequence fitting.
proof fn lemma_fits_push(gs: Seq<Lexeme>, g: Lexeme)
    requires
        forall|k: int|
            0 <= k < gs.len() ==> ((#[trigger] gs[k].kind) matches TokKind::IntLit(v) ==> v
                <= u64::MAX),
        g.kind matches TokKind::IntLit(v) ==> v <= u64::MAX,
    ensures
        forall|k: int|
            0 <= k < (gs + seq![g]).len() ==> ((#[trigger] (gs + seq![g])[k].kind)
                matches TokKind::IntLit(v) ==> v <= u64::MAX),
{
    let gs2 = gs + seq![g];
    assert forall|k: int| 0 <= k < gs2.len() implies ((#[trigger] gs2[k].kind)
        matches TokKind::IntLit(v) ==> v <= u64::MAX) by {
        if k < gs.len() {
            assert(gs2[k] == gs[k]);
        } else {
            assert(gs2[k] == g);
        }
    }
}

/// Scans a source text into its token sequence. The position index is rebuilt
/// for the text, comments are discarded, and unrecognized characters become
/// error tokens; an integer literal too large for an unsigned 64-bit value is
/// fatal, reported as `Err` with its position.
pub fn scan(input: &str) -> (r: Result<Vec<Token>, PosInfo>)
    ensures
        r matches Ok(v) ==> tokens_correspond(v@, lex(input@, 0), input@) && ints_fit(input@),
        r is Err ==> !ints_fit(input@),
{
    let ghost s = input@;
    let chars = str_chars(input);
    let mut idx: Vec<usize> = Vec::new();
    parse_line_pos(input, &mut idx);
    let n = chars.len();
    let mut toks: Vec<Token> = Vec::new();
    let ghost mut done: Seq<Lexeme> = Seq::empty();
    let mut i: usize = 0;
    proof {
        assert(lex(s, 0) =~= done + lex(s, 0));
    }
    while i < n
        invariant
            i <= n,
            n == s.len(),
            chars@ == s,
            input@ == s,
            idx@ == line_starts(s),
            wf_index(idx@),
            lex(s, 0) == done + lex(s, i as int),
            tokens_correspond(toks@, done, s),
            forall|k: int|
                0 <= k < done.len() ==> ((#[trigger] done[k].kind) matches TokKind::IntLit(v) ==> v
                    <= u64::MAX),
        decreases n - i,
    {
        let c = chars[i];
        if is_ws_e(c) {
            proof {
                assert(lex(s, i as int) == lex(s, i + 1));
            }
            i += 1;
        } else if c == '/' && i + 1 < n && chars[i + 1] == '*' {
            match find_close(&chars, i + 2) {
                Some(j) => {
                    proof {
                        assert(lex(s, i as int) == lex(s, j + 2));
                    }
                    i = j + 2;
                },
                None => {
                    let info = get_position_info(&idx, i);
                    let t = Token::Divide(info);
                    let ghost g = Lexeme { start: i as int, kind: TokKind::Divide };
                    proof {
                        assert(lex(s, i as int) == seq![g] + lex(s, i + 1));
                        lemma_correspond_push(toks@, done, s, t, g);
                        lemma_fits_push(done, g);
                        lemma_lex_advance(s, done, g, i as int, i + 1);
                        done = done + seq![g];
                    }
                    toks.push(t);
                    i += 1;
                },
            }
        } else if is_letter_e(c) {
            let j = scan_idc(&chars, i + 1);
            let word = input.substring_char(i, j);
            let txt = String::from_str(word);
            let info = get_position_info(&idx, i);
            let t = classify_word(txt, info);
            let ghost g = Lexeme {
                start: i as int,
                kind: kw_or_id(s.subrange(i as int, j as int)),
            };
            proof {
                assert(lex(s, i as int) == seq![g] + lex(s, j as int));
                lemma_correspond_push(toks@, done, s, t, g);
                lemma_fits_push(done, g);
                lemma_lex_advance(s, done, g, i as int, j as int);
                done = done + seq![g];
            }
            toks.push(t);
            i = j;
        } else if is_digit_e(c) {
            let j = scan_digits(&chars, i);
            proof {
                lemma_run_digits(s, i as int);
            }
            let ghost dv = dec_val(s.subrange(i as int, j as int));
            let ghost g = Lexeme { start: i as int, kind: TokKind::IntLit(dv) };
            proof {
                assert(j > i);
                assert(lex(s, i as int) == seq![g] + lex(s, j as int));
            }
            match parse_u64(&chars, i, j) {
                Some(v) => {
                    let info = get_position_info(&idx, i);
                    let t = Token::Int(ValueInfo { info, v });
                    proof {
                        lemma_correspond_push(toks@, done, s, t, g);
                        lemma_fits_push(done, g);
                        lemma_lex_advance(s, done, g, i as int, j as int);
                        done = done + seq![g];
                    }
                    toks.push(t);
                    i = j;
                },
                None => {
                    let info = get_position_info(&idx, i);
                    proof {
                        assert(lex(s, 0)[done.len() as int] == g);
                        assert(!ints_fit(s));
                    }
                    return Err(info);
                },
            }
        } else if c == '"' {
            match str_scan(&chars, i + 1) {
                Some(j) => {
                    let lit = input.substring_char(i, j);
                    let mut val = String::new();
                    strip_into(lit, &mut val);
                    let info = get_position_info(&idx, i);
                    let ghost g = Lexeme {
                        start: i as int,
                        kind: TokKind::StrLit(strip_cont(s.subrange(i as int, j as int))),
                    };
                    proof {
                        assert(val@ =~= strip_cont(s.subrange(i as int, j as int)));
                        assert(lex(s, i as int) == seq![g] + lex(s, j as int));
                    }
                    let t = Token::String(ValueInfo { info, v: val });
                    proof {
                        lemma_correspond_push(toks@, done, s, t, g);
                        lemma_fits_push(done, g);
                        lemma_lex_advance(s, done, g, i as int, j as int);
                        done = done + seq![g];
                    }
                    toks.push(t);
                    i = j;
                },
                None => {
                    let info = get_position_info(&idx, i);
                    let hd = input.substring_char(i, i + 1);
                    let ghost g = Lexeme {
                        start: i as int,
                        kind: TokKind::Wrong(seq![s[i as int]]),
                    };
                    proof {
                        assert(hd@ =~= seq![s[i as int]]);
                        assert(two_sym(s, i as int) is None);
                        assert(one_sym(c) is None);
                        assert(lex(s, i as int) == seq![g] + lex(s, i + 1));
                    }
                    let t = Token::Error(ValueInfo { info, v: String::from_str(hd) });
                    proof {
                        lemma_correspond_push(toks@, done, s, t, g);
                        lemma_fits_push(done, g);
                        lemma_lex_advance(s, done, g, i as int, i + 1);
                        done = done + seq![g];
                    }
                    toks.push(t);
                    i += 1;
                },
            }
        } else {
            let info = get_position_info(&idx, i);
            let two = i + 1 < n;
            let t: Token;
            let w: usize;
            if c == ':' && two && chars[i + 1] == '=' {
                t = Token::Assign(info);
                w = 2;
            } else if c == '<' && two && chars[i + 1] == '=' {
                t = Token::Le(info);
                w = 2;
            } else if c == '<' && two && chars[i + 1] == '>' {
                t = Token::Neq(info);
                w = 2;
            } else if c == '>' && two && chars[i + 1] == '=' {
                t = Token::Ge(info);
                w = 2;
            } else if c == ',' {
                t = Token::Comma(info);
                w = 1;
            } else if c == ':' {
                t = Token::Colon(info);
                w = 1;
            } else if c == ';' {
                t = Token::Semicolon(info);
                w = 1;
            } else if c == '(' {
                t = Token::Lparen(info);
                w = 1;
            } else if c == ')' {
                t = Token::Rparen(info);
                w = 1;
            } else if c == '[' {
                t = Token::Lbrack(info);
                w = 1;
            } else if c == ']' {
                t = Token::Rbrack(info);
                w = 1;
            } else if c == '{' {
                t = Token::Lbrace(info);
                w = 1;
            } else if c == '}' {
                t = Token::Rbrace(info);
                w = 1;
            } else if c == '.' {
                t = Token::Dot(info);
                w = 1;
            } else if c == '+' {
                t = Token::Plus(info);
                w = 1;
            } else if c == '-' {
                t = Token::Minus(info);
                w = 1;
            } else if c == '*' {
                t = Token::Times(info);
                w = 1;
            } else if c == '/' {
                t = Token::Divide(info);
                w = 1;
            } else if c == '=' {
                t = Token::Eq(info);
                w = 1;
            } else if c == '<' {
                t = Token::Lt(info);
                w = 1;
            } else if c == '>' {
                t = Token::Gt(info);
                w = 1;
            } else if c == '&' {
                t = Token::And(info);
                w = 1;
            } else if c == '|' {
                t = Token::Or(info);
                w = 1;
            } else {
                let hd = input.substring_char(i, i + 1);
                proof {
                    assert(hd@ =~= seq![s[i as int]]);
                }
                t = Token::Error(ValueInfo { info, v: String::from_str(hd) });
                w = 1;
            }
            let ghost g = Lexeme { start: i as int, kind: tok_view(t).1 };
            proof {
                assert(lex(s, i as int) == seq![g] + lex(s, i + w));
                lemma_correspond_push(toks@, done, s, t, g);
                lemma_fits_push(done, g);
                lemma_lex_advance(s, done, g, i as int, i + w);
                done = done + seq![g];
            }
            toks.push(t);
            i += w;
        }
    }
    proof {
        assert(lex(s, i as int) =~= Seq::<Lexeme>::empty());
        assert(done + lex(s, i as int) =~= done);
        assert(lex(s, 0) == done);
        assert(ints_fit(s));
    }
    Ok(toks)
}

/// Scans a source text whose integer literals all fit, as `tokenize` is only
/// called on: the token sequence of the text, comments discarded, error
/// tokens kept in place.
pub fn tokenize(input: &str) -> (r: Vec<Token>)
    requires
        ints_fit(input@),
    ensures
        tokens_correspond(r@, lex(input@, 0), input@),
{
    match scan(input) {
        Ok(v) => v,
        Err(_) => unreached(),
    }
}

/// The decimal digit `d` as a character.
pub open spec fn digit_char(d: int) -> char {
    if d == 0 {
        '0'
    } else if d == 1 {
        '1'
    } else if d == 2 {
        '2'
    } else if d == 3 {
        '3'
    } else if d == 4 {
        '4'
    } else if d == 5 {
        '5'
    } else if d == 6 {
        '6'
    } else if d == 7 {
        '7'
    } else if d == 8 {
        '8'
    } else {
        '9'
    }
}

/// The decimal rendering of a non-negative number.
pub open spec fn dec_str(n: int) -> Seq<char>
    decreases n when n >= 0
{
    if n < 10 {
        seq![digit_char(n)]
    } else {
        dec_str(n / 10) + seq![digit_char(n % 10)]
    }
}

/// One diagnostic line for an unrecognized slice, in the fixed
/// `<line>.<column>:<message>` shape.
pub open spec fn diag_line(p: PosInfo, txt: Seq<char>) -> Seq<char> {
    dec_str(p.line as int) + "."@ + dec_str(p.col as int) + ":"@ + "wrong token: "@ + txt
}

/// The diagnostics a token sequence gives rise to: exactly one line per error
/// token, in order; every other token, comments included, contributes none.
pub open spec fn diags(ts: Seq<Token>) -> Seq<Seq<char>>
    decreases ts.len(),
{
    if ts.len() == 0 {
        Seq::empty()
    } else {
        (match ts[0] {
            Token::Error(vi) => seq![diag_line(vi.info, vi.v@)],
            _ => Seq::<Seq<char>>::empty(),
        }) + diags(ts.drop_first())
    }
}

/// The number of error tokens in a sequence.
pub open spec fn count_errors(ts: Seq<Token>) -> int
    decreases ts.len(),
{
    if ts.len() == 0 {
        0int
    } else {
        (if ts[0] is Error {
            1int
        } else {
            0int
        }) + count_errors(ts.drop_first())
    }
}

/// One diagnostic per error token and none besides: the diagnostic sequence
/// is exactly as long as the number of error tokens.
pub proof fn lemma_one_diag_per_error(ts: Seq<Token>)
    ensures
        diags(ts).len() == count_errors(ts),
    decreases ts.len(),
{
    if ts.len() > 0 {
        lemma_one_diag_per_error(ts.drop_first());
    }
}

/// A single decimal digit as a string slice.
fn digit_str(d: usize) -> (r: &'static str)
    requires
        d < 10,
    ensures
        r@ == seq![digit_char(d as int)],
{
    let lit = "0123456789";
    proof {
        reveal_strlit("0123456789");
    }
    let r = lit.substring_char(d, d + 1);
    proof {
        assert(r@ =~= seq![digit_char(d as int)]);
    }
    r
}

/// Appends the decimal rendering of `n` to `out`.
fn push_dec(n: usize, out: &mut String)
    ensures
        final(out)@ == old(out)@ + dec_str(n as int),
    decreases n,
{
    if n >= 10 {
        push_dec(n / 10, out);
        out.append(digit_str(n % 10));
        proof {
            assert(old(out)@ + dec_str(n as int) =~= (old(out)@ + dec_str(n as int / 10)) + seq![
                digit_char(n as int % 10),
            ]);
        }
    } else {
        out.append(digit_str(n));
    }
}

/// Formats one diagnostic line `<line>.<column>:<message>` for an
/// unrecognized slice.
pub fn format_error(info: PosInfo, txt: &String) -> (r: String)
    ensures
        r@ == diag_line(info, txt@),
{
    let mut m = String::new();
    push_dec(info.line, &mut m);
    m.append(".");
    push_dec(info.col, &mut m);
    m.append(":");
    m.append("wrong token: ");
    m.append(txt.as_str());
    proof {
        assert(m@ =~= diag_line(info, txt@));
    }
    m
}

/// Collects the diagnostic line of every error token, in order: exactly one
/// line per error token, none for any other token.
pub fn diagnostics(tokens: &Vec<Token>) -> (r: Vec<String>)
    ensures
        r@.map_values(|x: String| x@) == diags(tokens@),
{
    let ghost ts = tokens@;
    let mut out: Vec<String> = Vec::new();
    let mut k: usize = 0;
    proof {
        assert(ts.skip(0) =~= ts);
        assert(out@.map_values(|x: String| x@) + diags(ts) =~= diags(ts));
    }
    while k < tokens.len()
        invariant
            k <= ts.len(),
            tokens@ == ts,
            out@.map_values(|x: String| x@) + diags(ts.skip(k as int)) == diags(ts),
        decreases ts.len() - k,
    {
        proof {
            assert(ts.skip(k as int)[0] == ts[k as int]);
            assert(ts.skip(k as int).drop_first() =~= ts.skip(k + 1));
        }
        match &tokens[k] {
            Token::Error(vi) => {
                let line = format_error(vi.info, &vi.v);
                proof {
                    assert(out@.push(line).map_values(|x: String| x@) =~= out@.map_values(
                        |x: String| x@,
                    ).push(line@));
                    assert(out@.map_values(|x: String| x@).push(line@) + diags(ts.skip(k + 1))
                        =~= out@.map_values(|x: String| x@) + diags(ts.skip(k as int)));
                }
                out.push(line);
            },
            _ => {
                proof {
                    assert(diags(ts.skip(k as int)) =~= Seq::<Seq<char>>::empty() + diags(
                        ts.skip(k + 1),
                    ));
                    assert(out@.map_values(|x: String| x@) + diags(ts.skip(k + 1)) =~= out@
                        .map_values(|x: String| x@) + diags(ts.skip(k as int)));
                }
            },
        }
        k += 1;
    }
    proof {
        assert(ts.skip(ts.len() as int) =~= Seq::<Token>::empty());
        assert(out@.map_values(|x: String| x@) + diags(ts.skip(ts.len() as int)) =~= out@
            .map_values(|x: String| x@));
    }
    out
}

/// A whitespace run bounded on both sides has exactly its written length.
proof fn lemma_ws_run_all(t: Seq<char>, i: int, k: int)
    requires
        0 <= i <= k <= t.len(),
        forall|m: int| i <= m < k ==> is_ws(#[trigger] t[m]),
        k == t.len() || !is_ws(t[k]),
    ensures
        ws_run(t, i) == k - i,
    decreases k - i,
{
    if i < k {
        lemma_ws_run_all(t, i + 1, k);
    }
}

/// A slice without backslashes normalizes to itself.
proof fn lemma_strip_no_backslash(t: Seq<char>)
    requires
        forall|k: int| 0 <= k < t.len() ==> (#[trigger] t[k]) != '\\',
    ensures
        strip_cont(t) == t,
    decreases t.len(),
{
    if t.len() > 0 {
        assert(cont_len(t) is None);
        assert(forall|k: int|
            0 <= k < t.drop_first().len() ==> (#[trigger] t.drop_first()[k]) != '\\');
        lemma_strip_no_backslash(t.drop_first());
        assert(seq![t[0]] + t.drop_first() =~= t);
    }
}

/// Inserting a line-continuation escape into an escape-free text and then
/// normalizing returns the original text: the escape is removed entirely.
pub proof fn lemma_continuation_round_trip(a: Seq<char>, w: Seq<char>, b: Seq<char>)
    requires
        forall|k: int| 0 <= k < a.len() ==> (#[trigger] a[k]) != '\\',
        forall|k: int| 0 <= k < b.len() ==> (#[trigger] b[k]) != '\\',
        w.len() >= 1,
        forall|k: int| 0 <= k < w.len() ==> is_ws(#[trigger] w[k]),
    ensures
        strip_cont(a + seq!['\\'] + w + seq!['\\'] + b) == a + b,
    decreases a.len(),
{
    let t = a + seq!['\\'] + w + seq!['\\'] + b;
    if a.len() == 0 {
        assert(t[0] == '\\');
        assert(t.len() >= 3);
        assert forall|m: int| 1 <= m < 1 + w.len() as int implies is_ws(#[trigger] t[m]) by {
            assert(t[m] == w[m - 1]);
        }
        assert(t[1 + w.len() as int] == '\\');
        assert(!is_ws('\\'));
        lemma_ws_run_all(t, 1, 1 + w.len() as int);
        assert(cont_len(t) == Some(w.len() + 2int));
        assert(t.skip(w.len() + 2int) =~= b);
        lemma_strip_no_backslash(b);
        assert(a + b =~= b);
    } else {
        assert(t[0] == a[0]);
        assert(a[0] != '\\');
        if t.len() >= 3 && t[0] == '\\' {
            assert(false);
        }
        assert(cont_len(t) is None);
        let a1 = a.drop_first();
        assert(forall|k: int| 0 <= k < a1.len() ==> (#[trigger] a1[k]) != '\\');
        assert(t.drop_first() =~= a1 + seq!['\\'] + w + seq!['\\'] + b);
        lemma_continuation_round_trip(a1, w, b);
        assert(seq![t[0]] + (a1 + b) =~= a + b);
    }
}

} // verus!
