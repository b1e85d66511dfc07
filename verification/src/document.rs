//! A document is a sequence of lines. In storage it is one text, its lines
//! set apart by line feeds.

use crate::text::{chars_of, push_char};
use vstd::prelude::*;
use vstd::string::StringExecFns;

verus! {

/// A document as the sequence of its lines' characters.
pub open spec fn lines_of(doc: Seq<String>) -> Seq<Seq<char>> {
    doc.map_values(|line: String| line@)
}

/// The lines of a text: what stands between its line feeds. A text of `n`
/// line feeds has `n + 1` lines, some of them perhaps empty.
pub open spec fn split_lines(text: Seq<char>) -> Seq<Seq<char>>
    decreases text.len(),
{
    if text.len() == 0 {
        seq![Seq::<char>::empty()]
    } else {
        let before = split_lines(text.drop_last());
        if text.last() == '\n' {
            before.push(Seq::<char>::empty())
        } else {
            before.drop_last().push(before.last().push(text.last()))
        }
    }
}

/// The text of a document: its lines with one line feed between each two.
pub open spec fn join_lines(lines: Seq<Seq<char>>) -> Seq<char>
    decreases lines.len(),
{
    if lines.len() == 0 {
        Seq::<char>::empty()
    } else if lines.len() == 1 {
        lines[0]
    } else {
        join_lines(lines.drop_last()) + seq!['\n'] + lines.last()
    }
}

/// Whether a line can stand in a document: it holds no line feed.
pub open spec fn is_line(line: Seq<char>) -> bool {
    forall|i: int| 0 <= i < line.len() ==> line[i] != '\n'
}

/// A text always has a line, and none of them holds a line feed.
pub proof fn lemma_split_lines_shape(text: Seq<char>)
    ensures
        split_lines(text).len() >= 1,
        forall|i: int| 0 <= i < split_lines(text).len() ==> is_line(#[trigger] split_lines(text)[i]),
    decreases text.len(),
{
    if text.len() > 0 {
        lemma_split_lines_shape(text.drop_last());
    }
}

/// Splitting what was joined gives the lines back, where there is a line at
/// all and no line holds a line feed.
pub proof fn lemma_split_join(lines: Seq<Seq<char>>)
    requires
        lines.len() >= 1,
        forall|i: int| 0 <= i < lines.len() ==> is_line(#[trigger] lines[i]),
    ensures
        split_lines(join_lines(lines)) == lines,
    decreases lines.len(), lines.last().len(),
{
    let last = lines.last();
    if last.len() == 0 {
        assert(last =~= Seq::<char>::empty());
        if lines.len() > 1 {
            let text = join_lines(lines);
            let init = lines.drop_last();
            assert(text.drop_last() =~= join_lines(init));
            lemma_split_join(init);
        }
    } else {
        let shorter = lines.drop_last().push(last.drop_last());
        assert(shorter.drop_last() =~= lines.drop_last());
        lemma_split_join(shorter);
        let text = join_lines(lines);
        assert(text.drop_last() =~= join_lines(shorter));
        assert(last.drop_last().push(last.last()) =~= last);
    }
}

/// Joining what was split gives the text back.
pub proof fn lemma_join_split(text: Seq<char>)
    ensures
        join_lines(split_lines(text)) == text,
    decreases text.len(),
{
    if text.len() > 0 {
        let shorter = text.drop_last();
        let before = split_lines(shorter);
        lemma_join_split(shorter);
        let lines = split_lines(text);
        if text.last() == '\n' {
            assert(lines.drop_last() =~= before);
        } else {
            assert(lines.drop_last() =~= before.drop_last());
            if before.len() > 1 {
                assert(join_lines(lines) =~= shorter.push(text.last()));
            }
        }
    }
}

/// Appends copies of the lines of `doc` from `from` up to, not including,
/// `to`.
pub fn copy_lines(out: &mut Vec<String>, doc: &Vec<String>, from: usize, to: usize)
    requires
        from <= to <= doc.len(),
    ensures
        lines_of(final(out)@) == lines_of(old(out)@) + lines_of(doc@).subrange(
            from as int,
            to as int,
        ),
{
    let ghost before = lines_of(out@);
    let mut i: usize = from;
    while i < to
        invariant
            from <= i <= to <= doc.len(),
            lines_of(out@) == before + lines_of(doc@).subrange(from as int, i as int),
        decreases to - i,
    {
        let line = doc[i].clone();
        proof {
            assert(lines_of(out@.push(line)) =~= lines_of(out@).push(line@));
        }
        out.push(line);
        i += 1;
    }
}

/// Splits a text into its lines.
pub fn lines(text: &str) -> (doc: Vec<String>)
    ensures
        lines_of(doc@) == split_lines(text@),
{
    let chars = chars_of(text);
    let n = chars.len();
    let mut doc: Vec<String> = Vec::new();
    let mut line = String::new();
    let mut i: usize = 0;
    while i < n
        invariant
            i <= n,
            n == text@.len(),
            chars@ == text@,
            lines_of(doc@).push(line@) == split_lines(text@.take(i as int)),
        decreases n - i,
    {
        let ghost longer = text@.take(i + 1);
        proof {
            assert(longer.drop_last() =~= text@.take(i as int));
        }
        if chars[i] == '\n' {
            doc.push(line);
            line = String::new();
        } else {
            push_char(&mut line, chars[i]);
        }
        i += 1;
    }
    proof {
        assert(text@.take(n as int) =~= text@);
    }
    doc.push(line);
    doc
}

/// Joins the lines of a document into its text.
pub fn text_of(doc: &Vec<String>) -> (text: String)
    ensures
        text@ == join_lines(lines_of(doc@)),
{
    let mut text = String::new();
    let mut i: usize = 0;
    while i < doc.len()
        invariant
            i <= doc.len(),
            text@ == join_lines(lines_of(doc@).take(i as int)),
        decreases doc.len() - i,
    {
        let ghost done = lines_of(doc@).take(i as int);
        let ghost next = lines_of(doc@).take(i + 1);
        proof {
            reveal_strlit("\n");
            assert(next.drop_last() =~= done);
        }
        if i > 0 {
            text.append("\n");
        }
        text.append(doc[i].as_str());
        i += 1;
    }
    assert(lines_of(doc@).take(doc.len() as int) =~= lines_of(doc@));
    text
}

} // verus!
