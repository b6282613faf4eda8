//! Text as lines: how a document is cut at its newlines, and the small
//! string operations the rest of the crate builds on.

use vstd::prelude::*;
use vstd::std_specs::iter::IteratorSpec;

verus! {

/// `String::push` appends one character at the end and leaves the rest of
/// the string as it was.
pub assume_specification[ String::push ](s: &mut String, c: char)
    ensures
        final(s)@ == old(s)@.push(c),
;

/// The number of characters before the first newline of `text`, or the
/// length of `text` when it holds no newline.
pub open spec fn line_end(text: Seq<char>) -> nat
    decreases text.len(),
{
    if text.len() == 0 || text[0] == '\n' {
        0
    } else {
        1 + line_end(text.skip(1))
    }
}

/// The lines of `text`. A line runs up to, and excludes, the next newline; a
/// last line needs no newline, and a newline at the very end of the text
/// opens no further line. The empty text has no lines.
pub open spec fn split_lines(text: Seq<char>) -> Seq<Seq<char>>
    decreases text.len(),
{
    if text.len() == 0 {
        Seq::empty()
    } else {
        let n = line_end(text);
        if n >= text.len() {
            seq![text]
        } else {
            seq![text.take(n as int)] + split_lines(text.skip(n + 1 as int))
        }
    }
}

/// Whether `line` is free of newlines.
pub open spec fn is_single_line(line: Seq<char>) -> bool {
    forall|k: int| 0 <= k < line.len() ==> line[k] != '\n'
}

/// The character sequences held by a list of lines, in order.
pub open spec fn lines_view(lines: Seq<Vec<char>>) -> Seq<Seq<char>> {
    Seq::new(lines.len(), |i: int| lines[i]@)
}

/// `line_end` finds the end of a newline-free prefix that is followed by a
/// newline or by the end of the text.
pub proof fn lemma_line_end(head: Seq<char>, rest: Seq<char>)
    requires
        is_single_line(head),
        rest.len() == 0 || rest[0] == '\n',
    ensures
        line_end(head + rest) == head.len(),
    decreases head.len(),
{
    let text = head + rest;
    if head.len() == 0 {
        assert(text =~= rest);
    } else {
        assert(text[0] == head[0]);
        assert(text.skip(1) =~= head.skip(1) + rest);
        lemma_line_end(head.skip(1), rest);
    }
}

/// Every line of a text is free of newlines.
pub proof fn lemma_lines_are_single(text: Seq<char>)
    ensures
        forall|i: int| 0 <= i < split_lines(text).len() ==> is_single_line(
            #[trigger] split_lines(text)[i],
        ),
    decreases text.len(),
{
    if text.len() > 0 {
        let n = line_end(text);
        lemma_line_end_bounds(text);
        let lines = split_lines(text);
        if n < text.len() {
            let tail = split_lines(text.skip(n + 1 as int));
            lemma_lines_are_single(text.skip(n + 1 as int));
            assert forall|i: int| 0 <= i < lines.len() implies is_single_line(
                #[trigger] lines[i],
            ) by {
                if i > 0 {
                    assert(lines[i] == tail[i - 1]);
                }
            }
        } else {
            assert(text.take(n as int) =~= text);
        }
    }
}

/// `line_end` stays within the text, no character before it is a newline,
/// and the character at it, if there is one, is a newline.
pub proof fn lemma_line_end_bounds(text: Seq<char>)
    ensures
        line_end(text) <= text.len(),
        is_single_line(text.take(line_end(text) as int)),
        line_end(text) < text.len() ==> text[line_end(text) as int] == '\n',
    decreases text.len(),
{
    if text.len() == 0 || text[0] == '\n' {
    } else {
        lemma_line_end_bounds(text.skip(1));
        let n = line_end(text);
        let m = line_end(text.skip(1));
        assert forall|k: int| 0 <= k < n implies text.take(n as int)[k] != '\n' by {
            if k > 0 {
                assert(text.take(n as int)[k] == text.skip(1).take(m as int)[k - 1]);
            }
        }
    }
}

/// The text made of `lines`, each closed by a newline.
pub open spec fn join_lines(lines: Seq<Seq<char>>) -> Seq<char>
    decreases lines.len(),
{
    if lines.len() == 0 {
        Seq::empty()
    } else {
        lines[0] + seq!['\n'] + join_lines(lines.skip(1))
    }
}

/// The lines of a text, each closed by a newline, give the text back; only
/// a newline that the last line lacked is added.
pub proof fn theorem_split_then_join(text: Seq<char>)
    ensures
        join_lines(split_lines(text)) == if text.len() == 0 || text.last() == '\n' {
            text
        } else {
            text.push('\n')
        },
    decreases text.len(),
{
    if text.len() > 0 {
        let n = line_end(text);
        let lines = split_lines(text);
        lemma_line_end_bounds(text);
        if n >= text.len() {
            assert(text.take(n as int) =~= text);
            assert(lines.skip(1) =~= Seq::<Seq<char>>::empty());
            assert(join_lines(lines.skip(1)) =~= Seq::<char>::empty());
            assert(text.last() == text.take(n as int)[text.len() - 1]);
            assert(join_lines(lines) =~= text.push('\n'));
        } else {
            let rest = text.skip(n + 1 as int);
            theorem_split_then_join(rest);
            assert(lines[0] == text.take(n as int));
            assert(lines.skip(1) =~= split_lines(rest));
            assert(text =~= text.take(n as int) + seq!['\n'] + rest);
            if rest.len() > 0 {
                assert(text.last() == rest.last());
                if rest.last() == '\n' {
                    assert(join_lines(lines) =~= text);
                } else {
                    assert(join_lines(lines) =~= text.push('\n'));
                }
            } else {
                assert(join_lines(lines) =~= text);
            }
        }
    }
}

/// Cuts `text` into its lines.
pub fn lines_of(text: &str) -> (lines: Vec<Vec<char>>)
    ensures
        lines_view(lines@) == split_lines(text@),
{
    let mut lines: Vec<Vec<char>> = Vec::new();
    let mut current: Vec<char> = Vec::new();
    let chars = text.chars();
    proof {
        assert(current@ + text@.skip(0) =~= text@);
        assert(lines_view(lines@) + split_lines(text@) =~= split_lines(text@));
    }
    for c in it: chars
        invariant
            it.seq() == text@,
            is_single_line(current@),
            split_lines(text@) == lines_view(lines@) + split_lines(
                current@ + text@.skip(it.index() as int),
            ),
    {
        let ghost rest = text@.skip(it.index() as int);
        let ghost tail = text@.skip(it.index() + 1 as int);
        let ghost whole = current@ + rest;
        assert(rest[0] == c);
        assert(rest.skip(1) =~= tail);
        if c == '\n' {
            proof {
                lemma_line_end(current@, rest);
                assert(whole.take(current@.len() as int) =~= current@);
                assert(whole.skip(current@.len() + 1 as int) =~= tail);
                assert(lines_view(lines@.push(current)) =~= lines_view(lines@) + seq![current@]);
                assert(Seq::<char>::empty() + tail =~= tail);
            }
            lines.push(current);
            current = Vec::new();
        } else {
            current.push(c);
            assert(current@ + tail =~= whole);
        }
    }
    proof {
        let rest = text@.skip(text@.len() as int);
        assert(current@ + rest =~= current@);
        lemma_line_end(current@, Seq::empty());
        assert(current@ + Seq::<char>::empty() =~= current@);
    }
    if current.len() > 0 {
        proof {
            assert(lines_view(lines@.push(current)) =~= lines_view(lines@) + seq![current@]);
        }
        lines.push(current);
    } else {
        assert(lines_view(lines@) + Seq::<Seq<char>>::empty() =~= lines_view(lines@));
    }
    lines
}

/// Whether two lines hold the same characters.
pub fn same_line(left: &Vec<char>, right: &Vec<char>) -> (same: bool)
    ensures
        same == (left@ == right@),
{
    if left.len() != right.len() {
        return false;
    }
    let mut i: usize = 0;
    while i < left.len()
        invariant
            i <= left.len(),
            left.len() == right.len(),
            forall|k: int| 0 <= k < i ==> left[k] == right[k],
        decreases left.len() - i,
    {
        if left[i] != right[i] {
            return false;
        }
        i += 1;
    }
    assert(left@ =~= right@);
    true
}

/// Appends the characters of `line` to `out`.
pub fn push_chars(out: &mut String, line: &Vec<char>)
    ensures
        final(out)@ == old(out)@ + line@,
{
    let mut i: usize = 0;
    while i < line.len()
        invariant
            i <= line.len(),
            out@ == old(out)@ + line@.take(i as int),
        decreases line.len() - i,
    {
        out.push(line[i]);
        assert(line@.take(i + 1) =~= line@.take(i as int).push(line@[i as int]));
        i += 1;
    }
    assert(line@.take(line@.len() as int) =~= line@);
}

} // verus!
