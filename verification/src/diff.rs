//! Line-based comparison of two texts.
//!
//! The comparison keeps a longest common subsequence of the lines of both
//! texts, removes every other line of the first text and adds every other
//! line of the second. It is written out one line per edit, each behind a
//! sign: a blank for a kept line, `-` for a removed one, `+` for an added
//! one.

use crate::text::{lines_of, lines_view, push_chars, same_line, split_lines};
use vstd::prelude::*;

verus! {

/// One step of an edit script.
pub enum Edit {
    /// The line stands in both texts.
    Keep(Seq<char>),
    /// The line stands in the first text only.
    Remove(Seq<char>),
    /// The line stands in the second text only.
    Add(Seq<char>),
}

/// The length of a longest common subsequence of `a` and `b`.
pub open spec fn lcs_len(a: Seq<Seq<char>>, b: Seq<Seq<char>>) -> nat
    decreases a.len() + b.len(),
{
    if a.len() == 0 || b.len() == 0 {
        0
    } else if a[0] == b[0] {
        1 + lcs_len(a.skip(1), b.skip(1))
    } else if lcs_len(a.skip(1), b) >= lcs_len(a, b.skip(1)) {
        lcs_len(a.skip(1), b)
    } else {
        lcs_len(a, b.skip(1))
    }
}

/// The edit script that turns the lines `a` into the lines `b`. Equal
/// leading lines are kept; otherwise the script drops the first line of `a`
/// when that loses no common line, and else adds the first line of `b`.
pub open spec fn edit_script(a: Seq<Seq<char>>, b: Seq<Seq<char>>) -> Seq<Edit>
    decreases a.len() + b.len(),
{
    if a.len() == 0 && b.len() == 0 {
        Seq::empty()
    } else if a.len() == 0 {
        seq![Edit::Add(b[0])] + edit_script(a, b.skip(1))
    } else if b.len() == 0 {
        seq![Edit::Remove(a[0])] + edit_script(a.skip(1), b)
    } else if a[0] == b[0] {
        seq![Edit::Keep(a[0])] + edit_script(a.skip(1), b.skip(1))
    } else if lcs_len(a.skip(1), b) >= lcs_len(a, b.skip(1)) {
        seq![Edit::Remove(a[0])] + edit_script(a.skip(1), b)
    } else {
        seq![Edit::Add(b[0])] + edit_script(a, b.skip(1))
    }
}

/// The edit script between the lines of two texts.
pub open spec fn text_script(from: Seq<char>, to: Seq<char>) -> Seq<Edit> {
    edit_script(split_lines(from), split_lines(to))
}

/// The sign an edit is written behind.
pub open spec fn edit_sign(e: Edit) -> char {
    match e {
        Edit::Keep(_) => ' ',
        Edit::Remove(_) => '-',
        Edit::Add(_) => '+',
    }
}

/// The line an edit carries.
pub open spec fn edit_line(e: Edit) -> Seq<char> {
    match e {
        Edit::Keep(line) => line,
        Edit::Remove(line) => line,
        Edit::Add(line) => line,
    }
}

/// One edit as text: its sign, its line, a newline.
pub open spec fn render_edit(e: Edit) -> Seq<char> {
    seq![edit_sign(e)] + edit_line(e) + seq!['\n']
}

/// A whole script as text, edit after edit.
pub open spec fn render(script: Seq<Edit>) -> Seq<char>
    decreases script.len(),
{
    if script.len() == 0 {
        Seq::empty()
    } else {
        render_edit(script[0]) + render(script.skip(1))
    }
}

/// The number of added lines in a script.
pub open spec fn added_count(script: Seq<Edit>) -> nat
    decreases script.len(),
{
    if script.len() == 0 {
        0
    } else if script[0] is Add {
        1 + added_count(script.skip(1))
    } else {
        added_count(script.skip(1))
    }
}

/// The number of removed lines in a script.
pub open spec fn removed_count(script: Seq<Edit>) -> nat
    decreases script.len(),
{
    if script.len() == 0 {
        0
    } else if script[0] is Remove {
        1 + removed_count(script.skip(1))
    } else {
        removed_count(script.skip(1))
    }
}

/// The lines a script starts from: those it keeps or removes.
pub open spec fn old_side(script: Seq<Edit>) -> Seq<Seq<char>>
    decreases script.len(),
{
    if script.len() == 0 {
        Seq::empty()
    } else if script[0] is Add {
        old_side(script.skip(1))
    } else {
        seq![edit_line(script[0])] + old_side(script.skip(1))
    }
}

/// The lines a script arrives at: those it keeps or adds.
pub open spec fn new_side(script: Seq<Edit>) -> Seq<Seq<char>>
    decreases script.len(),
{
    if script.len() == 0 {
        Seq::empty()
    } else if script[0] is Remove {
        new_side(script.skip(1))
    } else {
        seq![edit_line(script[0])] + new_side(script.skip(1))
    }
}

/// A common subsequence is no longer than either sequence.
pub proof fn lemma_lcs_bounds(a: Seq<Seq<char>>, b: Seq<Seq<char>>)
    ensures
        lcs_len(a, b) <= a.len(),
        lcs_len(a, b) <= b.len(),
    decreases a.len() + b.len(),
{
    if a.len() == 0 || b.len() == 0 {
    } else {
        lemma_lcs_bounds(a.skip(1), b.skip(1));
        lemma_lcs_bounds(a.skip(1), b);
        lemma_lcs_bounds(a, b.skip(1));
    }
}

/// A script whose first edit is `e` and whose other edits are `rest` reads
/// as `e` followed by `rest`, in text and in every count.
proof fn lemma_script_cons(e: Edit, rest: Seq<Edit>)
    ensures
        render(seq![e] + rest) == render_edit(e) + render(rest),
        added_count(seq![e] + rest) == added_count(rest) + if e is Add { 1nat } else { 0 },
        removed_count(seq![e] + rest) == removed_count(rest) + if e is Remove { 1nat } else { 0 },
        old_side(seq![e] + rest) == if e is Add {
            old_side(rest)
        } else {
            seq![edit_line(e)] + old_side(rest)
        },
        new_side(seq![e] + rest) == if e is Remove {
            new_side(rest)
        } else {
            seq![edit_line(e)] + new_side(rest)
        },
{
    let s = seq![e] + rest;
    assert(s[0] == e);
    assert(s.skip(1) =~= rest);
}

/// The length of a longest common subsequence does not depend on the order
/// of the two sequences.
pub proof fn lemma_lcs_symmetric(a: Seq<Seq<char>>, b: Seq<Seq<char>>)
    ensures
        lcs_len(a, b) == lcs_len(b, a),
    decreases a.len() + b.len(),
{
    if a.len() == 0 || b.len() == 0 {
    } else {
        lemma_lcs_symmetric(a.skip(1), b.skip(1));
        lemma_lcs_symmetric(a.skip(1), b);
        lemma_lcs_symmetric(a, b.skip(1));
    }
}

/// The edit script from `a` to `b` starts from exactly the lines of `a`
/// and arrives at exactly the lines of `b`.
pub proof fn theorem_script_sides(a: Seq<Seq<char>>, b: Seq<Seq<char>>)
    ensures
        old_side(edit_script(a, b)) == a,
        new_side(edit_script(a, b)) == b,
    decreases a.len() + b.len(),
{
    if a.len() == 0 && b.len() == 0 {
        assert(a =~= Seq::empty());
        assert(b =~= Seq::empty());
    } else {
        let first = edit_script(a, b)[0];
        let rest = edit_script(a, b).skip(1);
        if first is Add {
            assert(rest =~= edit_script(a, b.skip(1)));
            theorem_script_sides(a, b.skip(1));
            assert(b =~= seq![b[0]] + b.skip(1));
        } else if first is Remove {
            assert(rest =~= edit_script(a.skip(1), b));
            theorem_script_sides(a.skip(1), b);
            assert(a =~= seq![a[0]] + a.skip(1));
        } else {
            assert(rest =~= edit_script(a.skip(1), b.skip(1)));
            theorem_script_sides(a.skip(1), b.skip(1));
            assert(a =~= seq![a[0]] + a.skip(1));
            assert(b =~= seq![b[0]] + b.skip(1));
        }
    }
}

/// The edit script keeps a longest common subsequence: it removes all
/// other lines of `a` and adds all other lines of `b`.
pub proof fn theorem_script_counts(a: Seq<Seq<char>>, b: Seq<Seq<char>>)
    ensures
        added_count(edit_script(a, b)) == b.len() - lcs_len(a, b),
        removed_count(edit_script(a, b)) == a.len() - lcs_len(a, b),
    decreases a.len() + b.len(),
{
    lemma_lcs_bounds(a, b);
    if a.len() == 0 && b.len() == 0 {
    } else {
        let first = edit_script(a, b)[0];
        let rest = edit_script(a, b).skip(1);
        if first is Add {
            assert(rest =~= edit_script(a, b.skip(1)));
            theorem_script_counts(a, b.skip(1));
        } else if first is Remove {
            assert(rest =~= edit_script(a.skip(1), b));
            theorem_script_counts(a.skip(1), b);
        } else {
            assert(rest =~= edit_script(a.skip(1), b.skip(1)));
            theorem_script_counts(a.skip(1), b.skip(1));
        }
    }
}

/// Comparing in the other direction swaps the two counts: what one script
/// adds, the other removes.
pub proof fn theorem_reverse_swaps_counts(a: Seq<Seq<char>>, b: Seq<Seq<char>>)
    ensures
        added_count(edit_script(b, a)) == removed_count(edit_script(a, b)),
        removed_count(edit_script(b, a)) == added_count(edit_script(a, b)),
{
    theorem_script_counts(a, b);
    theorem_script_counts(b, a);
    lemma_lcs_symmetric(a, b);
}

/// Whether `part` can be had from `whole` by dropping lines.
pub open spec fn is_subsequence(part: Seq<Seq<char>>, whole: Seq<Seq<char>>) -> bool
    decreases whole.len(),
{
    if part.len() == 0 {
        true
    } else if whole.len() == 0 {
        false
    } else {
        ||| (part[0] == whole[0] && is_subsequence(part.skip(1), whole.skip(1)))
        ||| is_subsequence(part, whole.skip(1))
    }
}

/// The lines a script keeps.
pub open spec fn kept_lines(script: Seq<Edit>) -> Seq<Seq<char>>
    decreases script.len(),
{
    if script.len() == 0 {
        Seq::empty()
    } else if script[0] is Keep {
        seq![edit_line(script[0])] + kept_lines(script.skip(1))
    } else {
        kept_lines(script.skip(1))
    }
}

/// A subsequence without its first line is still a subsequence.
proof fn lemma_subsequence_tail(part: Seq<Seq<char>>, whole: Seq<Seq<char>>)
    requires
        part.len() > 0,
        is_subsequence(part, whole),
    ensures
        is_subsequence(part.skip(1), whole),
    decreases whole.len(),
{
    if whole.len() > 0 {
        if part[0] == whole[0] && is_subsequence(part.skip(1), whole.skip(1)) {
            lemma_subsequence_grow(part.skip(1), whole);
        } else {
            lemma_subsequence_tail(part, whole.skip(1));
            lemma_subsequence_grow(part.skip(1), whole);
        }
    }
}

/// A subsequence of all but the first line is a subsequence of the whole.
proof fn lemma_subsequence_grow(part: Seq<Seq<char>>, whole: Seq<Seq<char>>)
    requires
        whole.len() > 0,
        is_subsequence(part, whole.skip(1)),
    ensures
        is_subsequence(part, whole),
{
}

/// No common subsequence of `a` and `b` is longer than `lcs_len(a, b)`.
pub proof fn theorem_lcs_is_longest(common: Seq<Seq<char>>, a: Seq<Seq<char>>, b: Seq<Seq<char>>)
    requires
        is_subsequence(common, a),
        is_subsequence(common, b),
    ensures
        common.len() <= lcs_len(a, b),
    decreases a.len() + b.len(),
{
    if common.len() == 0 {
    } else if a.len() == 0 || b.len() == 0 {
    } else if a[0] == b[0] {
        if !(common[0] == a[0] && is_subsequence(common.skip(1), a.skip(1))) {
            lemma_subsequence_tail(common, a.skip(1));
        }
        if !(common[0] == b[0] && is_subsequence(common.skip(1), b.skip(1))) {
            lemma_subsequence_tail(common, b.skip(1));
        }
        theorem_lcs_is_longest(common.skip(1), a.skip(1), b.skip(1));
    } else {
        if is_subsequence(common, a.skip(1)) {
            theorem_lcs_is_longest(common, a.skip(1), b);
        } else {
            assert(is_subsequence(common, b.skip(1)));
            theorem_lcs_is_longest(common, a, b.skip(1));
        }
    }
}

/// The lines an edit script keeps are a common subsequence of `a` and `b`
/// of the greatest length there is.
pub proof fn theorem_script_keeps_longest(a: Seq<Seq<char>>, b: Seq<Seq<char>>)
    ensures
        is_subsequence(kept_lines(edit_script(a, b)), a),
        is_subsequence(kept_lines(edit_script(a, b)), b),
        kept_lines(edit_script(a, b)).len() == lcs_len(a, b),
    decreases a.len() + b.len(),
{
    if a.len() == 0 && b.len() == 0 {
    } else {
        let script = edit_script(a, b);
        let first = script[0];
        let rest = script.skip(1);
        if first is Add {
            assert(rest =~= edit_script(a, b.skip(1)));
            theorem_script_keeps_longest(a, b.skip(1));
            lemma_subsequence_grow(kept_lines(script), b);
        } else if first is Remove {
            assert(rest =~= edit_script(a.skip(1), b));
            theorem_script_keeps_longest(a.skip(1), b);
            lemma_subsequence_grow(kept_lines(script), a);
        } else {
            assert(rest =~= edit_script(a.skip(1), b.skip(1)));
            theorem_script_keeps_longest(a.skip(1), b.skip(1));
            let kept = kept_lines(script);
            assert(kept[0] == a[0]);
            assert(kept.skip(1) =~= kept_lines(rest));
        }
    }
}

/// Whether `row` holds, for every `q`, the length of a longest common
/// subsequence of the last `p` lines of `a` and the last `q` lines of `b`.
pub open spec fn is_lcs_row(row: Seq<usize>, a: Seq<Seq<char>>, b: Seq<Seq<char>>, p: int) -> bool {
    &&& row.len() == b.len() + 1
    &&& forall|q: int|
        0 <= q <= b.len() ==> #[trigger] row[q] == lcs_len(a.skip(a.len() - p), b.skip(b.len() - q))
}

/// Whether `table` holds one such row for every `p` up to its length.
pub open spec fn is_lcs_table(table: Seq<Vec<usize>>, a: Seq<Seq<char>>, b: Seq<Seq<char>>) -> bool {
    forall|p: int| 0 <= p < table.len() ==> is_lcs_row(#[trigger] table[p]@, a, b, p)
}

/// The first row of the table: nothing is common with no lines.
fn lcs_first_row(a: &Vec<Vec<char>>, b: &Vec<Vec<char>>) -> (row: Vec<usize>)
    ensures
        is_lcs_row(row@, lines_view(a@), lines_view(b@), 0),
{
    let m = b.len();
    let mut row: Vec<usize> = Vec::new();
    row.push(0);
    let mut q: usize = 0;
    while q < m
        invariant
            q <= m,
            row.len() == q + 1,
            forall|k: int| 0 <= k <= q ==> row[k] == 0,
        decreases m - q,
    {
        row.push(0);
        q += 1;
    }
    row
}

/// The row for the last `p` lines of `a`, from the row before it.
fn lcs_next_row(a: &Vec<Vec<char>>, b: &Vec<Vec<char>>, above: &Vec<usize>, p: usize) -> (row: Vec<
    usize,
>)
    requires
        1 <= p <= a.len(),
        is_lcs_row(above@, lines_view(a@), lines_view(b@), p - 1),
    ensures
        is_lcs_row(row@, lines_view(a@), lines_view(b@), p as int),
{
    let n = a.len();
    let m = b.len();
    let ghost la = lines_view(a@);
    let ghost lb = lines_view(b@);
    let ghost sa = la.skip(n - p);
    let mut row: Vec<usize> = Vec::new();
    row.push(0);
    assert(lb.skip(lb.len() - 0).len() == 0);
    let mut q: usize = 0;
    while q < m
        invariant
            q <= m,
            m == b.len(),
            n == a.len(),
            1 <= p <= n,
            la == lines_view(a@),
            lb == lines_view(b@),
            sa == la.skip(n - p),
            row.len() == q + 1,
            is_lcs_row(above@, la, lb, p - 1),
            forall|k: int| 0 <= k <= q ==> #[trigger] row[k] == lcs_len(sa, lb.skip(lb.len() - k)),
        decreases m - q,
    {
        q += 1;
        let ghost sb = lb.skip(m - q);
        proof {
            assert(sa.skip(1) =~= la.skip(n - (p - 1)));
            assert(sb.skip(1) =~= lb.skip(m - (q - 1)));
            assert(sa[0] == a@[n - p]@);
            assert(sb[0] == b@[m - q]@);
            lemma_lcs_bounds(sa.skip(1), sb.skip(1));
            assert(above@[q - 1] == lcs_len(sa.skip(1), sb.skip(1)));
            assert(above@[q as int] == lcs_len(sa.skip(1), sb));
            assert(row@[q - 1] == lcs_len(sa, sb.skip(1)));
        }
        let entry = if same_line(&a[n - p], &b[m - q]) {
            above[q - 1] + 1
        } else if above[q] >= row[q - 1] {
            above[q]
        } else {
            row[q - 1]
        };
        row.push(entry);
    }
    row
}

/// The table of common-subsequence lengths for every pair of suffixes of
/// `a` and `b`, indexed by the lengths of the suffixes.
fn lcs_table(a: &Vec<Vec<char>>, b: &Vec<Vec<char>>) -> (table: Vec<Vec<usize>>)
    ensures
        table.len() == a.len() + 1,
        is_lcs_table(table@, lines_view(a@), lines_view(b@)),
{
    let n = a.len();
    let mut table: Vec<Vec<usize>> = Vec::new();
    table.push(lcs_first_row(a, b));
    let mut p: usize = 0;
    while p < n
        invariant
            p <= n,
            n == a.len(),
            table.len() == p + 1,
            is_lcs_table(table@, lines_view(a@), lines_view(b@)),
        decreases n - p,
    {
        p += 1;
        let row = lcs_next_row(a, b, &table[p - 1], p);
        table.push(row);
    }
    table
}

/// Writes one edit to `out`: the sign, the line, a newline.
fn push_edit(out: &mut String, sign: char, line: &Vec<char>)
    ensures
        final(out)@ == old(out)@ + (seq![sign] + line@ + seq!['\n']),
{
    out.push(sign);
    push_chars(out, line);
    out.push('\n');
    assert(out@ =~= old(out)@ + (seq![sign] + line@ + seq!['\n']));
}

/// Compares two lists of lines. Returns the edit script between them as
/// text, the number of lines it adds and the number it removes.
pub fn diff_lines(a: &Vec<Vec<char>>, b: &Vec<Vec<char>>) -> (result: (String, usize, usize))
    ensures
        result.0@ == render(edit_script(lines_view(a@), lines_view(b@))),
        result.1 == added_count(edit_script(lines_view(a@), lines_view(b@))),
        result.2 == removed_count(edit_script(lines_view(a@), lines_view(b@))),
{
    let n = a.len();
    let m = b.len();
    let table = lcs_table(a, b);
    let ghost la = lines_view(a@);
    let ghost lb = lines_view(b@);
    let ghost full = edit_script(la, lb);
    let mut out = String::new();
    let mut added: usize = 0;
    let mut removed: usize = 0;
    let mut i: usize = 0;
    let mut j: usize = 0;
    proof {
        assert(la.skip(0) =~= la);
        assert(lb.skip(0) =~= lb);
        assert(out@ + render(full) =~= render(full));
    }
    while i < n || j < m
        invariant
            i <= n,
            j <= m,
            n == a.len(),
            m == b.len(),
            la == lines_view(a@),
            lb == lines_view(b@),
            full == edit_script(la, lb),
            table.len() == n + 1,
            is_lcs_table(table@, la, lb),
            added <= j,
            removed <= i,
            render(full) == out@ + render(edit_script(la.skip(i as int), lb.skip(j as int))),
            added_count(full) == added + added_count(
                edit_script(la.skip(i as int), lb.skip(j as int)),
            ),
            removed_count(full) == removed + removed_count(
                edit_script(la.skip(i as int), lb.skip(j as int)),
            ),
        decreases (n - i) + (m - j),
    {
        let ghost sa = la.skip(i as int);
        let ghost sb = lb.skip(j as int);
        let ghost before = out@;
        proof {
            if i < n {
                assert(sa.skip(1) =~= la.skip(i + 1));
                assert(sa[0] == a@[i as int]@);
            }
            if j < m {
                assert(sb.skip(1) =~= lb.skip(j + 1));
                assert(sb[0] == b@[j as int]@);
            }
        }
        if i == n {
            proof {
                lemma_script_cons(Edit::Add(sb[0]), edit_script(sa, sb.skip(1)));
            }
            push_edit(&mut out, '+', &b[j]);
            added += 1;
            j += 1;
        } else if j == m {
            proof {
                lemma_script_cons(Edit::Remove(sa[0]), edit_script(sa.skip(1), sb));
            }
            push_edit(&mut out, '-', &a[i]);
            removed += 1;
            i += 1;
        } else if same_line(&a[i], &b[j]) {
            proof {
                lemma_script_cons(Edit::Keep(sa[0]), edit_script(sa.skip(1), sb.skip(1)));
            }
            push_edit(&mut out, ' ', &a[i]);
            i += 1;
            j += 1;
        } else {
            proof {
                assert(is_lcs_row(table@[n - i - 1]@, la, lb, n - i - 1));
                assert(is_lcs_row(table@[n - i]@, la, lb, n - i));
                assert(table@[n - i - 1]@[m - j] == lcs_len(sa.skip(1), sb));
                assert(table@[n - i]@[m - j - 1] == lcs_len(sa, sb.skip(1)));
            }
            if table[n - i - 1][m - j] >= table[n - i][m - j - 1] {
                proof {
                    lemma_script_cons(Edit::Remove(sa[0]), edit_script(sa.skip(1), sb));
                }
                push_edit(&mut out, '-', &a[i]);
                removed += 1;
                i += 1;
            } else {
                proof {
                    lemma_script_cons(Edit::Add(sb[0]), edit_script(sa, sb.skip(1)));
                }
                push_edit(&mut out, '+', &b[j]);
                added += 1;
                j += 1;
            }
        }
        proof {
            let step = edit_script(sa, sb)[0];
            let rest = edit_script(la.skip(i as int), lb.skip(j as int));
            assert(out@ == before + render_edit(step));
            assert(before + (render_edit(step) + render(rest)) =~= out@ + render(rest));
        }
    }
    proof {
        assert(la.skip(n as int).len() == 0);
        assert(lb.skip(m as int).len() == 0);
        assert(out@ + Seq::<char>::empty() =~= out@);
    }
    (out, added, removed)
}

/// Compares two texts line by line. Returns the edit script between their
/// lines as text, the number of lines it adds and the number it removes.
pub fn diff_text(from: &str, to: &str) -> (result: (String, usize, usize))
    ensures
        result.0@ == render(text_script(from@, to@)),
        result.1 == added_count(text_script(from@, to@)),
        result.2 == removed_count(text_script(from@, to@)),
{
    let a = lines_of(from);
    let b = lines_of(to);
    diff_lines(&a, &b)
}

} // verus!
