//! The file format: one line per record, each record ended by a line break.

use vstd::prelude::*;

verus! {

/// The document held by a vector of lines, as a sequence of character sequences.
pub open spec fn lines_view(v: Seq<Vec<char>>) -> Seq<Seq<char>> {
    v.map_values(|l: Vec<char>| l@)
}

/// A terminated record loses one carriage return before its line feed.
pub open spec fn without_cr(l: Seq<char>) -> Seq<char> {
    if l.len() > 0 && l.last() == '\r' {
        l.drop_last()
    } else {
        l
    }
}

/// Reading `text` from the left: the records closed so far, and the open one.
pub open spec fn scan(text: Seq<char>) -> (Seq<Seq<char>>, Seq<char>)
    decreases text.len(),
{
    if text.len() == 0 {
        (Seq::empty(), Seq::empty())
    } else {
        let before = scan(text.drop_last());
        if text.last() == '\n' {
            (before.0.push(without_cr(before.1)), Seq::empty())
        } else {
            (before.0, before.1.push(text.last()))
        }
    }
}

/// The lines of a file's text. An unterminated last record is a line too;
/// an empty text has no lines.
pub open spec fn lines_of(text: Seq<char>) -> Seq<Seq<char>> {
    let s = scan(text);
    if s.1.len() == 0 {
        s.0
    } else {
        s.0.push(s.1)
    }
}

/// The text that stores `lines`: each line followed by a line feed.
pub open spec fn text_of(lines: Seq<Seq<char>>) -> Seq<char>
    decreases lines.len(),
{
    if lines.len() == 0 {
        Seq::empty()
    } else {
        text_of(lines.drop_last()) + lines.last().push('\n')
    }
}

/// A line that the file format stores and reads back unchanged.
pub open spec fn storable(l: Seq<char>) -> bool {
    &&& forall|i: int| 0 <= i < l.len() ==> l[i] != '\n'
    &&& (l.len() > 0 ==> l.last() != '\r')
}

/// Splits a file's text into its lines.
pub fn parse_lines(text: &Vec<char>) -> (r: Vec<Vec<char>>)
    ensures
        lines_view(r@) == lines_of(text@),
{
    let mut done: Vec<Vec<char>> = Vec::new();
    let mut cur: Vec<char> = Vec::new();
    let mut i: usize = 0;
    while i < text.len()
        invariant
            i <= text@.len(),
            lines_view(done@) == scan(text@.subrange(0, i as int)).0,
            cur@ == scan(text@.subrange(0, i as int)).1,
        decreases text@.len() - i,
    {
        let c = text[i];
        assert(text@.subrange(0, i + 1).drop_last() =~= text@.subrange(0, i as int));
        if c == '\n' {
            if cur.len() > 0 && cur[cur.len() - 1] == '\r' {
                cur.pop();
            }
            let ghost before = done@;
            done.push(cur);
            assert(lines_view(done@) =~= lines_view(before).push(without_cr(
                scan(text@.subrange(0, i as int)).1,
            )));
            cur = Vec::new();
        } else {
            cur.push(c);
        }
        i += 1;
    }
    assert(text@.subrange(0, text@.len() as int) =~= text@);
    if cur.len() > 0 {
        let ghost before = done@;
        let ghost last = cur@;
        done.push(cur);
        assert(lines_view(done@) =~= lines_view(before).push(last));
    }
    done
}

/// The text that stores the given lines.
pub fn render_text(lines: &Vec<Vec<char>>) -> (r: Vec<char>)
    ensures
        r@ == text_of(lines_view(lines@)),
{
    let mut out: Vec<char> = Vec::new();
    let mut i: usize = 0;
    while i < lines.len()
        invariant
            i <= lines@.len(),
            out@ == text_of(lines_view(lines@).subrange(0, i as int)),
        decreases lines@.len() - i,
    {
        let line = &lines[i];
        let ghost start = out@;
        let mut j: usize = 0;
        while j < line.len()
            invariant
                j <= line@.len(),
                out@ == start + line@.subrange(0, j as int),
            decreases line@.len() - j,
        {
            out.push(line[j]);
            j += 1;
            assert(out@ =~= start + line@.subrange(0, j as int));
        }
        out.push('\n');
        let ghost prefix = lines_view(lines@).subrange(0, i + 1);
        assert(prefix.drop_last() =~= lines_view(lines@).subrange(0, i as int));
        assert(out@ =~= start + line@.push('\n'));
        i += 1;
    }
    assert(lines_view(lines@).subrange(0, lines@.len() as int) =~= lines_view(lines@));
    out
}

proof fn lemma_scan_append(t: Seq<char>, s: Seq<char>)
    requires
        forall|i: int| 0 <= i < s.len() ==> s[i] != '\n',
    ensures
        scan(t + s) == (scan(t).0, scan(t).1 + s),
    decreases s.len(),
{
    if s.len() == 0 {
        assert(t + s =~= t);
        assert(scan(t).1 + s =~= scan(t).1);
    } else {
        lemma_scan_append(t, s.drop_last());
        assert((t + s).drop_last() =~= t + s.drop_last());
        assert((scan(t).1 + s.drop_last()).push(s.last()) =~= scan(t).1 + s);
    }
}

proof fn lemma_scan_text_of(lines: Seq<Seq<char>>)
    requires
        forall|k: int| 0 <= k < lines.len() ==> storable(#[trigger] lines[k]),
    ensures
        scan(text_of(lines)) == (lines, Seq::<char>::empty()),
    decreases lines.len(),
{
    if lines.len() == 0 {
        assert(lines =~= Seq::<Seq<char>>::empty());
    } else {
        let init = lines.drop_last();
        let last = lines.last();
        assert(storable(lines[lines.len() - 1]));
        lemma_scan_text_of(init);
        let t = text_of(init) + last;
        lemma_scan_append(text_of(init), last);
        assert(Seq::<char>::empty() + last =~= last);
        assert(text_of(lines) =~= t.push('\n'));
        assert(t.push('\n').drop_last() =~= t);
        assert(init.push(last) =~= lines);
    }
}

/// Saving lines and reading the file back gives the same lines, for lines
/// that hold no line feed and do not end in a carriage return.
pub proof fn lemma_round_trip(lines: Seq<Seq<char>>)
    requires
        forall|k: int| 0 <= k < lines.len() ==> storable(#[trigger] lines[k]),
    ensures
        lines_of(text_of(lines)) == lines,
{
    lemma_scan_text_of(lines);
}

} // verus!
