//! Laws that relate the buffer operations to one another.

use vstd::prelude::*;
use crate::editor::{
    TextState, Direction, inserted, split, deleted, moved, searched, line_contains, occurs_at,
    first_occurrence, first_line_with, lemma_searched_at,
};
use crate::text::{lines_of, text_of, storable, lemma_round_trip};

verus! {

/// The buffer of a new file: no lines, the cursor and the view at the origin.
pub open spec fn empty_state() -> TextState {
    TextState { lines: Seq::empty(), row: 0, col: 0, scroll: 0 }
}

/// The state after typing the characters of `cs` one after another.
pub open spec fn typed(s: TextState, cs: Seq<char>) -> TextState
    decreases cs.len(),
{
    if cs.len() == 0 {
        s
    } else {
        inserted(typed(s, cs.drop_last()), cs.last())
    }
}

proof fn lemma_typed_into_empty(cs: Seq<char>)
    ensures
        cs.len() > 0 ==> typed(empty_state(), cs) == (TextState {
            lines: seq![cs],
            row: 0,
            col: cs.len() as int,
            scroll: 0,
        }),
    decreases cs.len(),
{
    if cs.len() == 1 {
        assert(cs.drop_last() =~= Seq::<char>::empty());
        assert(typed(empty_state(), cs.drop_last()) == empty_state());
        assert(Seq::<Seq<char>>::empty().push(Seq::empty()) =~= seq![Seq::<char>::empty()]);
        assert(Seq::<char>::empty().insert(0, cs.last()) =~= cs);
        assert(seq![Seq::<char>::empty()].update(0, cs) =~= seq![cs]);
    } else if cs.len() > 1 {
        let init = cs.drop_last();
        lemma_typed_into_empty(init);
        assert(init.insert(init.len() as int, cs.last()) =~= cs);
        assert(seq![init].update(0, cs) =~= seq![cs]);
    }
}

/// Typing characters into a new file, saving it and reading it back gives
/// one line that holds exactly those characters (no line at all when none
/// was typed), for characters that the file format stores unchanged.
pub proof fn lemma_typed_text_round_trip(cs: Seq<char>)
    requires
        storable(cs),
    ensures
        lines_of(text_of(typed(empty_state(), cs).lines)) == typed(empty_state(), cs).lines,
        typed(empty_state(), cs).lines == (if cs.len() == 0 {
            Seq::<Seq<char>>::empty()
        } else {
            seq![cs]
        }),
{
    lemma_typed_into_empty(cs);
    let lines = typed(empty_state(), cs).lines;
    if cs.len() > 0 {
        assert forall|k: int| 0 <= k < lines.len() implies storable(#[trigger] lines[k]) by {
            assert(lines[k] == cs);
        }
    }
    lemma_round_trip(lines);
}

/// Deleting backwards right after typing a character on a line restores the
/// document and the cursor.
pub proof fn lemma_delete_undoes_insert(s: TextState, ch: char)
    requires
        s.wf(),
        s.row < s.lines.len(),
    ensures
        deleted(inserted(s, ch)) == s,
{
    let l = s.lines[s.row];
    assert(l.insert(s.col, ch).remove(s.col) =~= l);
    assert(s.lines.update(s.row, l.insert(s.col, ch)).update(s.row, l) =~= s.lines);
}

/// Deleting backwards at the start of the line that a line break made joins
/// the two parts again and puts the cursor back where the break was made.
pub proof fn lemma_join_undoes_split(s: TextState)
    requires
        s.wf(),
        s.row < s.lines.len(),
    ensures
        deleted(split(s)) == s,
{
    let l = s.lines[s.row];
    let t = split(s);
    let left = l.subrange(0, s.col);
    let right = l.subrange(s.col, l.len() as int);
    assert(t.lines.remove(s.row + 1) =~= s.lines.update(s.row, left));
    assert(left + right =~= l);
    assert(s.lines.update(s.row, left).update(s.row, l) =~= s.lines);
}

/// Moving the cursor keeps it on a line of a non-empty document, within
/// that line, and at the origin of an empty one.
pub proof fn lemma_move_stays_on_line(s: TextState, dir: Direction, height: int)
    requires
        s.wf(),
        s.on_line(),
    ensures
        moved(s, dir, height).wf(),
        moved(s, dir, height).on_line(),
        moved(s, dir, height).lines == s.lines,
{
}

/// Moving the cursor keeps it within the `height` rows shown from the scroll
/// offset when it was there before.
pub proof fn lemma_move_keeps_cursor_visible(s: TextState, dir: Direction, height: int)
    requires
        s.wf(),
        s.scroll <= s.row < s.scroll + height,
    ensures
        moved(s, dir, height).scroll <= moved(s, dir, height).row < moved(s, dir, height).scroll
            + height,
{
}

proof fn lemma_first_occurrence_exists(line: Seq<char>, q: Seq<char>, i: int)
    requires
        occurs_at(line, q, i),
    ensures
        exists|d: int| first_occurrence(line, q, d),
    decreases i,
{
    if forall|j: int| 0 <= j < i ==> !occurs_at(line, q, j) {
        assert(first_occurrence(line, q, i));
    } else {
        let j = choose|j: int| 0 <= j < i && occurs_at(line, q, j);
        lemma_first_occurrence_exists(line, q, j);
    }
}

/// A search for a term that only line `k` holds puts the cursor on line `k`,
/// at the term's first occurrence in it.
pub proof fn lemma_search_finds_only_line(s: TextState, q: Seq<char>, k: int)
    requires
        0 <= k < s.lines.len(),
        line_contains(s.lines[k], q),
        forall|j: int| 0 <= j < s.lines.len() && j != k ==> !line_contains(#[trigger] s.lines[j], q),
    ensures
        searched(s, q).row == k,
        first_occurrence(s.lines[k], q, searched(s, q).col),
        searched(s, q).lines == s.lines,
        searched(s, q).scroll == s.scroll,
{
    let i = choose|i: int| occurs_at(s.lines[k], q, i);
    lemma_first_occurrence_exists(s.lines[k], q, i);
    let d = choose|d: int| first_occurrence(s.lines[k], q, d);
    assert(first_line_with(s.lines, q, k));
    lemma_searched_at(s, q, k, d);
}

/// A search for a term that no line holds leaves the cursor where it was.
pub proof fn lemma_search_absent_keeps_state(s: TextState, q: Seq<char>)
    requires
        forall|j: int| 0 <= j < s.lines.len() ==> !line_contains(#[trigger] s.lines[j], q),
    ensures
        searched(s, q) == s,
{
}

} // verus!
