//! The mathematical model of the document text: a sequence of Unicode scalar
//! values, addressed both by absolute character offset and by (line, column).
//! A line break is a single `'\n'`; line `l` starts immediately after the
//! `l`-th line break, and a text of `n` line breaks has `n + 1` lines (a text
//! ending in `'\n'` has a final empty line).
use vstd::prelude::*;

verus! {

/// Number of `'\n'` characters in `s`.
pub open spec fn newline_count(s: Seq<char>) -> nat
    decreases s.len(),
{
    if s.len() == 0 {
        0
    } else {
        newline_count(s.drop_last()) + if s.last() == '\n' {
            1nat
        } else {
            0nat
        }
    }
}

/// Number of logical lines of `s`: one more than the number of line breaks.
pub open spec fn line_count(s: Seq<char>) -> int {
    newline_count(s) as int + 1
}

/// Number of `'\n'` characters strictly before offset `n`.
pub open spec fn prefix_newlines(s: Seq<char>, n: int) -> nat {
    newline_count(s.take(n))
}

/// Offset of the first `'\n'` at or after offset `p`, or `s.len()` if none.
pub open spec fn next_newline(s: Seq<char>, p: int) -> int
    decreases s.len() - p,
{
    if p < 0 || p >= s.len() {
        s.len() as int
    } else if s[p] == '\n' {
        p
    } else {
        next_newline(s, p + 1)
    }
}

/// Offset of the first character of line `l` (0-based). For `l` equal to
/// `line_count(s)` this is one past the end, i.e. `s.len()`.
pub open spec fn line_start(s: Seq<char>, l: int) -> int
    decreases l,
{
    if l <= 0 {
        0
    } else {
        let e = next_newline(s, line_start(s, l - 1));
        if e < s.len() {
            e + 1
        } else {
            s.len() as int
        }
    }
}

/// Offset one past the last character of line `l`, excluding its line break.
pub open spec fn line_end(s: Seq<char>, l: int) -> int {
    next_newline(s, line_start(s, l))
}

/// Length of line `l`, not counting its line break.
pub open spec fn line_len(s: Seq<char>, l: int) -> int {
    line_end(s, l) - line_start(s, l)
}

/// The characters of line `l`, without its line break.
pub open spec fn line_seq(s: Seq<char>, l: int) -> Seq<char> {
    s.subrange(line_start(s, l), line_end(s, l))
}

/// Absolute character offset of position (line, col).
pub open spec fn pos_offset(s: Seq<char>, line: int, col: int) -> int {
    line_start(s, line) + col
}

pub proof fn lemma_newline_count_le_len(s: Seq<char>)
    ensures
        newline_count(s) <= s.len(),
    decreases s.len(),
{
    if s.len() > 0 {
        lemma_newline_count_le_len(s.drop_last());
    }
}

pub proof fn lemma_next_newline(s: Seq<char>, p: int)
    requires
        0 <= p <= s.len(),
    ensures
        p <= next_newline(s, p) <= s.len(),
        next_newline(s, p) < s.len() ==> s[next_newline(s, p)] == '\n',
        forall|q: int| p <= q < next_newline(s, p) ==> s[q] != '\n',
    decreases s.len() - p,
{
    if p < s.len() && s[p] != '\n' {
        lemma_next_newline(s, p + 1);
    }
}

pub proof fn lemma_next_newline_unique(s: Seq<char>, p: int, n: int)
    requires
        0 <= p <= n <= s.len(),
        forall|q: int| p <= q < n ==> s[q] != '\n',
        n == s.len() || s[n] == '\n',
    ensures
        next_newline(s, p) == n,
    decreases n - p,
{
    if p < n {
        lemma_next_newline_unique(s, p + 1, n);
    }
}

pub proof fn lemma_count_concat(a: Seq<char>, b: Seq<char>)
    ensures
        newline_count(a + b) == newline_count(a) + newline_count(b),
    decreases b.len(),
{
    if b.len() == 0 {
        assert(a + b =~= a);
    } else {
        lemma_count_concat(a, b.drop_last());
        assert((a + b).drop_last() =~= a + b.drop_last());
        assert((a + b).last() == b.last());
    }
}

pub proof fn lemma_pc_step(s: Seq<char>, n: int)
    requires
        0 <= n < s.len(),
    ensures
        prefix_newlines(s, n + 1) == prefix_newlines(s, n) + if s[n] == '\n' {
            1nat
        } else {
            0nat
        },
{
    assert(s.take(n + 1).drop_last() =~= s.take(n));
    assert(s.take(n + 1).last() == s[n]);
}

pub proof fn lemma_pc_mono(s: Seq<char>, n: int, m: int)
    requires
        0 <= n <= m <= s.len(),
    ensures
        prefix_newlines(s, n) <= prefix_newlines(s, m),
    decreases m - n,
{
    if n < m {
        lemma_pc_mono(s, n, m - 1);
        lemma_pc_step(s, m - 1);
    }
}

pub proof fn lemma_pc_no_newline(s: Seq<char>, n: int, m: int)
    requires
        0 <= n <= m <= s.len(),
        forall|q: int| n <= q < m ==> s[q] != '\n',
    ensures
        prefix_newlines(s, m) == prefix_newlines(s, n),
    decreases m - n,
{
    if n < m {
        lemma_pc_no_newline(s, n, m - 1);
        lemma_pc_step(s, m - 1);
    }
}

pub proof fn lemma_pc_full(s: Seq<char>)
    ensures
        prefix_newlines(s, s.len() as int) == newline_count(s),
{
    assert(s.take(s.len() as int) =~= s);
}

pub proof fn lemma_pc_agree(s: Seq<char>, t: Seq<char>, n: int)
    requires
        0 <= n <= s.len(),
        n <= t.len(),
        forall|q: int| 0 <= q < n ==> t[q] == s[q],
    ensures
        prefix_newlines(t, n) == prefix_newlines(s, n),
{
    assert(t.take(n) =~= s.take(n));
}

/// Line starts are exactly the offsets that sit just after a line break (or
/// zero) and are preceded by as many breaks as their line index.
pub proof fn lemma_line_boundary(s: Seq<char>, l: int)
    requires
        0 <= l <= newline_count(s),
    ensures
        0 <= line_start(s, l) <= s.len(),
        prefix_newlines(s, line_start(s, l)) == l,
        l > 0 ==> line_start(s, l) > 0 && s[line_start(s, l) - 1] == '\n',
        line_end(s, l) < s.len() <==> l < newline_count(s),
        line_end(s, l) < s.len() ==> s[line_end(s, l)] == '\n',
        line_start(s, l) <= line_end(s, l) <= s.len(),
        forall|q: int| line_start(s, l) <= q < line_end(s, l) ==> s[q] != '\n',
    decreases l,
{
    if l == 0 {
        assert(s.take(0) =~= Seq::<char>::empty());
        lemma_next_newline(s, 0);
        // line_end(0) < len iff 0 < newline_count
        if line_end(s, 0) < s.len() {
            lemma_pc_step(s, line_end(s, 0));
            lemma_pc_mono(s, line_end(s, 0) + 1, s.len() as int);
            lemma_pc_full(s);
        } else {
            lemma_pc_no_newline(s, 0, s.len() as int);
            lemma_pc_full(s);
        }
    } else {
        lemma_line_boundary(s, l - 1);
        let prev = line_start(s, l - 1);
        let e = next_newline(s, prev);
        lemma_next_newline(s, prev);
        // since l - 1 < newline_count(s), the previous line ends at a break
        assert(e < s.len());
        assert(s[e] == '\n');
        lemma_pc_no_newline(s, prev, e);
        lemma_pc_step(s, e);
        assert(line_start(s, l) == e + 1);
        assert(prefix_newlines(s, e + 1) == l);
        lemma_next_newline(s, e + 1);
        if line_end(s, l) < s.len() {
            lemma_pc_no_newline(s, e + 1, line_end(s, l));
            lemma_pc_step(s, line_end(s, l));
            lemma_pc_mono(s, line_end(s, l) + 1, s.len() as int);
            lemma_pc_full(s);
        } else {
            lemma_pc_no_newline(s, e + 1, s.len() as int);
            lemma_pc_full(s);
        }
    }
}

/// Two offsets that both satisfy the line-boundary characterization for the
/// same line index are equal.
pub proof fn lemma_boundary_unique(s: Seq<char>, l: int, m: int, n: int)
    requires
        0 <= m <= s.len(),
        0 <= n <= s.len(),
        prefix_newlines(s, m) == l,
        prefix_newlines(s, n) == l,
        m == 0 && l == 0 || m > 0 && s[m - 1] == '\n',
        n == 0 && l == 0 || n > 0 && s[n - 1] == '\n',
    ensures
        m == n,
{
    if m < n {
        lemma_pc_mono(s, m, n - 1);
        lemma_pc_step(s, n - 1);
    } else if n < m {
        lemma_pc_mono(s, n, m - 1);
        lemma_pc_step(s, m - 1);
    }
}

/// If `n` satisfies the line-boundary characterization for line `l`, then `n`
/// is `line_start(s, l)`.
pub proof fn lemma_line_start_from_boundary(s: Seq<char>, l: int, n: int)
    requires
        0 <= l <= newline_count(s),
        0 <= n <= s.len(),
        prefix_newlines(s, n) == l,
        n == 0 && l == 0 || n > 0 && s[n - 1] == '\n',
    ensures
        line_start(s, l) == n,
{
    lemma_line_boundary(s, l);
    lemma_boundary_unique(s, l, line_start(s, l), n);
}

/// One past the last line starts (and ends) at the end of the text.
pub proof fn lemma_line_start_end(s: Seq<char>)
    ensures
        line_start(s, line_count(s)) == s.len(),
        line_end(s, line_count(s) - 1) == s.len(),
{
    let nlc = newline_count(s) as int;
    lemma_line_boundary(s, nlc);
    assert(line_end(s, nlc) == next_newline(s, line_start(s, nlc)));
}

/// Line starts strictly increase from one line to the next (within range).
pub proof fn lemma_line_start_mono(s: Seq<char>, l: int)
    requires
        0 <= l < newline_count(s),
    ensures
        line_start(s, l) < line_start(s, l + 1),
        line_start(s, l + 1) == line_end(s, l) + 1,
{
    lemma_line_boundary(s, l);
    lemma_line_boundary(s, l + 1);
    lemma_next_newline(s, line_start(s, l));
}

pub proof fn lemma_insert_count(s: Seq<char>, i: int, ch: char)
    requires
        0 <= i <= s.len(),
    ensures
        newline_count(s.insert(i, ch)) == newline_count(s) + if ch == '\n' {
            1nat
        } else {
            0nat
        },
{
    let a = s.subrange(0, i);
    let b = s.subrange(i, s.len() as int);
    lemma_count_concat(a.push(ch), b);
    assert(a.push(ch).drop_last() =~= a);
    lemma_count_concat(a, b);
    assert(a + b =~= s);
}

pub proof fn lemma_remove_count(s: Seq<char>, i: int)
    requires
        0 <= i < s.len(),
    ensures
        newline_count(s.remove(i)) == newline_count(s) - if s[i] == '\n' {
            1nat
        } else {
            0nat
        },
{
    let a = s.subrange(0, i);
    let b = s.subrange(i + 1, s.len() as int);
    lemma_count_concat(a, b);
    lemma_count_concat(a.push(s[i]), b);
    assert(a.push(s[i]).drop_last() =~= a);
    assert(a.push(s[i]) + b =~= s);
}

/// Inserting a non-break character at column `c` of line `l` keeps the line
/// structure: same line count, same start of line `l`, line `l` one longer.
pub proof fn lemma_insert_in_line(s: Seq<char>, l: int, c: int, ch: char)
    requires
        0 <= l < line_count(s),
        0 <= c <= line_len(s, l),
        ch != '\n',
    ensures
        line_count(s.insert(pos_offset(s, l, c), ch)) == line_count(s),
        line_start(s.insert(pos_offset(s, l, c), ch), l) == line_start(s, l),
        line_len(s.insert(pos_offset(s, l, c), ch), l) == line_len(s, l) + 1,
{
    let ls = line_start(s, l);
    let le = line_end(s, l);
    let idx = ls + c;
    let t = s.insert(idx, ch);
    lemma_line_boundary(s, l);
    s.insert_ensures(idx, ch);
    lemma_insert_count(s, idx, ch);
    lemma_pc_agree(s, t, ls);
    lemma_line_start_from_boundary(t, l, ls);
    lemma_next_newline_unique(t, ls, le + 1);
}

/// Inserting a line break at column `c` of line `l` splits the line: the new
/// line `l + 1` starts just after the break and holds the tail of line `l`.
pub proof fn lemma_insert_break(s: Seq<char>, l: int, c: int)
    requires
        0 <= l < line_count(s),
        0 <= c <= line_len(s, l),
    ensures
        line_count(s.insert(pos_offset(s, l, c), '\n')) == line_count(s) + 1,
        line_start(s.insert(pos_offset(s, l, c), '\n'), l) == line_start(s, l),
        line_len(s.insert(pos_offset(s, l, c), '\n'), l) == c,
        line_start(s.insert(pos_offset(s, l, c), '\n'), l + 1) == pos_offset(s, l, c) + 1,
        line_len(s.insert(pos_offset(s, l, c), '\n'), l + 1) == line_len(s, l) - c,
{
    let ls = line_start(s, l);
    let le = line_end(s, l);
    let idx = ls + c;
    let t = s.insert(idx, '\n');
    lemma_line_boundary(s, l);
    s.insert_ensures(idx, '\n');
    lemma_insert_count(s, idx, '\n');
    lemma_pc_agree(s, t, ls);
    assert(forall|q: int| ls <= q < idx ==> t[q] != '\n');
    lemma_pc_no_newline(t, ls, idx);
    lemma_pc_step(t, idx);
    lemma_line_start_from_boundary(t, l, ls);
    lemma_next_newline_unique(t, ls, idx);
    lemma_line_start_from_boundary(t, l + 1, idx + 1);
    lemma_next_newline_unique(t, idx + 1, le + 1);
}

/// Removing a non-break character inside line `l` keeps the line structure:
/// same line count, same start of line `l`, line `l` one shorter.
pub proof fn lemma_remove_in_line(s: Seq<char>, l: int, k: int)
    requires
        0 <= l < line_count(s),
        line_start(s, l) <= k < line_end(s, l),
    ensures
        line_count(s.remove(k)) == line_count(s),
        line_start(s.remove(k), l) == line_start(s, l),
        line_len(s.remove(k), l) == line_len(s, l) - 1,
{
    let ls = line_start(s, l);
    let le = line_end(s, l);
    let t = s.remove(k);
    lemma_line_boundary(s, l);
    s.remove_ensures(k);
    lemma_remove_count(s, k);
    lemma_pc_agree(s, t, ls);
    lemma_line_start_from_boundary(t, l, ls);
    lemma_next_newline_unique(t, ls, le - 1);
}

/// Removing the break that ends line `l` merges lines `l` and `l + 1`: the
/// merged line keeps the start of line `l` and the two lengths add up.
pub proof fn lemma_remove_break(s: Seq<char>, l: int)
    requires
        0 <= l < line_count(s) - 1,
    ensures
        line_count(s.remove(line_end(s, l))) == line_count(s) - 1,
        line_start(s.remove(line_end(s, l)), l) == line_start(s, l),
        line_len(s.remove(line_end(s, l)), l) == line_len(s, l) + line_len(s, l + 1),
{
    let ls = line_start(s, l);
    let le = line_end(s, l);
    let le2 = line_end(s, l + 1);
    let t = s.remove(le);
    lemma_line_boundary(s, l);
    lemma_line_boundary(s, l + 1);
    lemma_line_start_mono(s, l);
    s.remove_ensures(le);
    lemma_remove_count(s, le);
    lemma_pc_agree(s, t, ls);
    lemma_line_start_from_boundary(t, l, ls);
    lemma_next_newline_unique(t, ls, le2 - 1);
}

} // verus!
