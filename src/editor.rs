//! The buffer and cursor model: the document, the cursor, the scroll offset,
//! and the operations that edit and navigate them.

use vstd::prelude::*;
use crate::text::{lines_of, lines_view, parse_lines, render_text, text_of};

verus! {

/// A direction of cursor movement.
#[derive(Clone, Copy, Debug, PartialEq, Eq, Structural)]
pub enum Direction {
    Up,
    Down,
    Left,
    Right,
}

/// The mathematical state of the buffer: its lines, the cursor's row and
/// column, and the first visible row.
pub struct TextState {
    pub lines: Seq<Seq<char>>,
    pub row: int,
    pub col: int,
    pub scroll: int,
}

/// The line at `row`, or an empty line past the end of the document.
pub open spec fn line_at(lines: Seq<Seq<char>>, row: int) -> Seq<char> {
    if 0 <= row < lines.len() {
        lines[row]
    } else {
        Seq::empty()
    }
}

/// The smaller of two integers.
pub open spec fn min(a: int, b: int) -> int {
    if a <= b {
        a
    } else {
        b
    }
}

impl TextState {
    /// The cursor stands on a line, or at column zero just past the last line.
    pub open spec fn wf(self) -> bool {
        &&& 0 <= self.row <= self.lines.len()
        &&& 0 <= self.col <= line_at(self.lines, self.row).len()
        &&& 0 <= self.scroll
    }

    /// The cursor stands on a line of a non-empty document, or at the origin
    /// of an empty one.
    pub open spec fn on_line(self) -> bool {
        &&& 0 <= self.col <= line_at(self.lines, self.row).len()
        &&& if self.lines.len() == 0 {
            self.row == 0
        } else {
            0 <= self.row < self.lines.len()
        }
    }
}

/// The state after typing `ch` at the cursor.
pub open spec fn inserted(s: TextState, ch: char) -> TextState {
    let lines = if s.row < s.lines.len() {
        s.lines
    } else {
        s.lines.push(Seq::empty())
    };
    TextState { lines: lines.update(s.row, lines[s.row].insert(s.col, ch)), col: s.col + 1, ..s }
}

/// The state after breaking the line at the cursor.
pub open spec fn split(s: TextState) -> TextState {
    if s.row < s.lines.len() {
        let l = s.lines[s.row];
        TextState {
            lines: s.lines.update(s.row, l.subrange(0, s.col)).insert(
                s.row + 1,
                l.subrange(s.col, l.len() as int),
            ),
            row: s.row + 1,
            col: 0,
            ..s
        }
    } else {
        TextState { lines: s.lines.push(Seq::empty()), row: s.row + 1, col: 0, ..s }
    }
}

/// The state after deleting backwards: the character before the cursor, or
/// else the break before the cursor's line, which joins it to the line above.
pub open spec fn deleted(s: TextState) -> TextState {
    if s.row < s.lines.len() && s.col > 0 {
        TextState { lines: s.lines.update(s.row, s.lines[s.row].remove(s.col - 1)), col: s.col - 1, ..s }
    } else if s.row > 0 {
        let rest = if s.row < s.lines.len() {
            s.lines.remove(s.row)
        } else {
            s.lines
        };
        let prev = s.lines[s.row - 1];
        TextState {
            lines: rest.update(s.row - 1, prev + line_at(s.lines, s.row)),
            row: s.row - 1,
            col: prev.len() as int,
            ..s
        }
    } else {
        s
    }
}

/// Deleting backwards changes the document.
pub open spec fn deletes(s: TextState) -> bool {
    (s.row < s.lines.len() && s.col > 0) || s.row > 0
}

/// The scroll offset once the cursor went up to `row`.
pub open spec fn scroll_up(scroll: int, row: int) -> int {
    if row < scroll {
        scroll - 1
    } else {
        scroll
    }
}

/// The scroll offset once the cursor went down to `row`, `height` rows visible.
pub open spec fn scroll_down(scroll: int, row: int, height: int) -> int {
    if row >= scroll + height {
        scroll + 1
    } else {
        scroll
    }
}

/// The state after moving the cursor one step, `height` rows visible.
pub open spec fn moved(s: TextState, dir: Direction, height: int) -> TextState {
    match dir {
        Direction::Up => if s.row > 0 {
            let r = s.row - 1;
            TextState {
                row: r,
                col: min(s.col, line_at(s.lines, r).len() as int),
                scroll: scroll_up(s.scroll, r),
                ..s
            }
        } else {
            s
        },
        Direction::Down => if s.row + 1 < s.lines.len() {
            let r = s.row + 1;
            TextState {
                row: r,
                col: min(s.col, s.lines[r].len() as int),
                scroll: scroll_down(s.scroll, r, height),
                ..s
            }
        } else {
            s
        },
        Direction::Left => if s.col > 0 {
            TextState { col: s.col - 1, ..s }
        } else if s.row > 0 {
            let r = s.row - 1;
            TextState {
                row: r,
                col: s.lines[r].len() as int,
                scroll: scroll_up(s.scroll, r),
                ..s
            }
        } else {
            s
        },
        Direction::Right => if s.col < line_at(s.lines, s.row).len() {
            TextState { col: s.col + 1, ..s }
        } else if s.row + 1 < s.lines.len() {
            let r = s.row + 1;
            TextState { row: r, col: 0, scroll: scroll_down(s.scroll, r, height), ..s }
        } else {
            s
        },
    }
}

/// `q` stands in `line` from index `i` on.
pub open spec fn occurs_at(line: Seq<char>, q: Seq<char>, i: int) -> bool {
    0 <= i && i + q.len() <= line.len() && line.subrange(i, i + q.len()) == q
}

/// `q` stands somewhere in `line`.
pub open spec fn line_contains(line: Seq<char>, q: Seq<char>) -> bool {
    exists|i: int| occurs_at(line, q, i)
}

/// `i` is the first index at which `q` stands in `line`.
pub open spec fn first_occurrence(line: Seq<char>, q: Seq<char>, i: int) -> bool {
    occurs_at(line, q, i) && forall|j: int| 0 <= j < i ==> !occurs_at(line, q, j)
}

/// `k` is the first line that contains `q`.
pub open spec fn first_line_with(lines: Seq<Seq<char>>, q: Seq<char>, k: int) -> bool {
    &&& 0 <= k < lines.len()
    &&& line_contains(lines[k], q)
    &&& forall|j: int| 0 <= j < k ==> !line_contains(#[trigger] lines[j], q)
}

/// The state after searching for `q`: the cursor on the first occurrence in
/// the first line that holds one, or where it was when no line does.
pub open spec fn searched(s: TextState, q: Seq<char>) -> TextState {
    if exists|k: int| first_line_with(s.lines, q, k) {
        let k = choose|k: int| first_line_with(s.lines, q, k);
        let i = choose|i: int| first_occurrence(s.lines[k], q, i);
        TextState { row: k, col: i, ..s }
    } else {
        s
    }
}

/// The editor: a document with its file name, cursor, scroll offset, dirty
/// flag and last search term.
pub struct Editor {
    pub filename: String,
    pub content: Vec<Vec<char>>,
    pub cursor_x: usize,
    pub cursor_y: usize,
    pub scroll_y: usize,
    pub modified: bool,
    pub search_query: Option<Vec<char>>,
}

impl View for Editor {
    type V = TextState;

    open spec fn view(&self) -> TextState {
        TextState {
            lines: lines_view(self.content@),
            row: self.cursor_y as int,
            col: self.cursor_x as int,
            scroll: self.scroll_y as int,
        }
    }
}

impl Editor {
    /// The cursor stands on a line, within it, or at column zero just past
    /// the last line.
    pub open spec fn wf(&self) -> bool {
        self@.wf()
    }

    /// An editor on the file `filename` whose text is `text`; an empty text
    /// stands for a file that could not be read.
    pub fn open(filename: String, text: &Vec<char>) -> (r: Editor)
        ensures
            r.wf(),
            r@.lines == lines_of(text@),
            r@.row == 0 && r@.col == 0 && r@.scroll == 0,
            r.filename == filename,
            !r.modified,
            r.search_query.is_none(),
    {
        Editor {
            filename,
            content: parse_lines(text),
            cursor_x: 0,
            cursor_y: 0,
            scroll_y: 0,
            modified: false,
            search_query: None,
        }
    }

    /// Names the file anew when `new_name` is given, and returns the text to
    /// write to it.
    pub fn begin_save(&mut self, new_name: Option<String>) -> (r: Vec<char>)
        ensures
            r@ == text_of(old(self)@.lines),
            final(self).filename == (match new_name {
                Some(n) => n,
                None => old(self).filename,
            }),
            final(self)@ == old(self)@,
            final(self).modified == old(self).modified,
            final(self).search_query == old(self).search_query,
    {
        if let Some(name) = new_name {
            self.filename = name;
        }
        render_text(&self.content)
    }

    /// Records the outcome of writing the text: a written file is no longer
    /// modified.
    pub fn finish_save(&mut self, written: bool)
        ensures
            final(self).modified == (old(self).modified && !written),
            final(self)@ == old(self)@,
            final(self).filename == old(self).filename,
            final(self).search_query == old(self).search_query,
    {
        if written {
            self.modified = false;
        }
    }

    /// Inserts `ch` at the cursor, first adding a line when the cursor stands
    /// past the last one.
    pub fn insert_char(&mut self, ch: char)
        requires
            old(self).wf(),
        ensures
            final(self).wf(),
            final(self)@ == inserted(old(self)@, ch),
            final(self).modified,
            final(self).filename == old(self).filename,
            final(self).search_query == old(self).search_query,
    {
        if self.cursor_y >= self.content.len() {
            let ghost before = self.content@;
            self.content.push(Vec::new());
            assert(lines_view(self.content@) =~= lines_view(before).push(Seq::empty()));
        }
        let ghost mid = self.content@;
        let y = self.cursor_y;
        self.content[y].insert(self.cursor_x, ch);
        assert(lines_view(self.content@) =~= lines_view(mid).update(
            y as int,
            mid[y as int]@.insert(self.cursor_x as int, ch),
        ));
        let n: usize = self.content[y].len();
        assert(lines_view(self.content@)[y as int] == self.content@[y as int]@);
        assert(n >= self.cursor_x + 1);
        self.cursor_x += 1;
        self.modified = true;
    }

    /// Breaks the line at the cursor: the part after the cursor becomes the
    /// next line, and the cursor goes to its start.
    pub fn insert_newline(&mut self)
        requires
            old(self).wf(),
        ensures
            final(self).wf(),
            final(self)@ == split(old(self)@),
            final(self).modified,
            final(self).filename == old(self).filename,
            final(self).search_query == old(self).search_query,
    {
        let ghost before = self.content@;
        let y = self.cursor_y;
        if y >= self.content.len() {
            self.content.push(Vec::new());
            assert(lines_view(self.content@) =~= lines_view(before).push(Seq::empty()));
        } else {
            let x = self.cursor_x;
            let rest = self.content[y].split_off(x);
            self.content.insert(y + 1, rest);
            let ghost l = before[y as int]@;
            assert(lines_view(self.content@) =~= lines_view(before).update(
                y as int,
                l.subrange(0, x as int),
            ).insert(y + 1, l.subrange(x as int, l.len() as int)));
        }
        let n: usize = self.content.len();
        assert(n >= y + 1);
        self.cursor_y = y + 1;
        self.cursor_x = 0;
        self.modified = true;
    }

    /// Deletes backwards: the character before the cursor, or at the start
    /// of a line below the first, the line break before it.
    pub fn delete_char(&mut self)
        requires
            old(self).wf(),
        ensures
            final(self).wf(),
            final(self)@ == deleted(old(self)@),
            final(self).modified == (old(self).modified || deletes(old(self)@)),
            final(self).filename == old(self).filename,
            final(self).search_query == old(self).search_query,
    {
        let ghost before = self.content@;
        let y = self.cursor_y;
        if y < self.content.len() && self.cursor_x > 0 {
            let x = self.cursor_x - 1;
            self.content[y].remove(x);
            assert(lines_view(self.content@) =~= lines_view(before).update(
                y as int,
                before[y as int]@.remove(x as int),
            ));
            self.cursor_x = x;
            self.modified = true;
        } else if y > 0 {
            let mut current = if y < self.content.len() {
                self.content.remove(y)
            } else {
                Vec::new()
            };
            let ghost rest = self.content@;
            assert(lines_view(rest) =~= if (y as int) < before.len() {
                lines_view(before).remove(y as int)
            } else {
                lines_view(before)
            });
            assert(current@ == line_at(lines_view(before), y as int));
            let p = y - 1;
            self.cursor_y = p;
            self.cursor_x = self.content[p].len();
            self.content[p].append(&mut current);
            assert(lines_view(self.content@) =~= lines_view(rest).update(
                p as int,
                before[p as int]@ + line_at(lines_view(before), y as int),
            ));
            self.modified = true;
        }
    }

    /// The length of the line at `row`, zero past the last line.
    fn line_len(&self, row: usize) -> (r: usize)
        ensures
            r == line_at(self@.lines, row as int).len(),
    {
        if row < self.content.len() {
            self.content[row].len()
        } else {
            0
        }
    }

    /// Moves the cursor one step in `dir`, wrapping between line ends, and
    /// scrolls by one line when the cursor leaves the `visible_height` rows
    /// shown from the scroll offset.
    pub fn move_cursor(&mut self, dir: Direction, visible_height: usize)
        requires
            old(self).wf(),
        ensures
            final(self).wf(),
            final(self)@ == moved(old(self)@, dir, visible_height as int),
            final(self).modified == old(self).modified,
            final(self).filename == old(self).filename,
            final(self).search_query == old(self).search_query,
    {
        let n = self.content.len();
        let y = self.cursor_y;
        let x = self.cursor_x;
        match dir {
            Direction::Up => {
                if y > 0 {
                    self.step_up(y - 1);
                    let len = self.line_len(y - 1);
                    if x > len {
                        self.cursor_x = len;
                    }
                }
            },
            Direction::Down => {
                if y < n && n - y > 1 {
                    self.step_down(y + 1, visible_height);
                    let len = self.line_len(y + 1);
                    if x > len {
                        self.cursor_x = len;
                    }
                }
            },
            Direction::Left => {
                if x > 0 {
                    self.cursor_x = x - 1;
                } else if y > 0 {
                    self.step_up(y - 1);
                    self.cursor_x = self.line_len(y - 1);
                }
            },
            Direction::Right => {
                if x < self.line_len(y) {
                    self.cursor_x = x + 1;
                } else if y < n && n - y > 1 {
                    self.step_down(y + 1, visible_height);
                    self.cursor_x = 0;
                }
            },
        }
    }

    /// Puts the cursor on `row`, above it, scrolling up when `row` is above the view.
    fn step_up(&mut self, row: usize)
        ensures
            final(self).cursor_y == row,
            final(self).scroll_y == scroll_up(old(self).scroll_y as int, row as int),
            final(self).cursor_x == old(self).cursor_x,
            final(self).content == old(self).content,
            final(self).modified == old(self).modified,
            final(self).filename == old(self).filename,
            final(self).search_query == old(self).search_query,
    {
        self.cursor_y = row;
        if row < self.scroll_y {
            self.scroll_y = self.scroll_y - 1;
        }
    }

    /// Puts the cursor on `row`, below it, scrolling down when `row` is below the view.
    fn step_down(&mut self, row: usize, visible_height: usize)
        requires
            row < old(self).content@.len(),
        ensures
            final(self).cursor_y == row,
            final(self).scroll_y == scroll_down(
                old(self).scroll_y as int,
                row as int,
                visible_height as int,
            ),
            final(self).cursor_x == old(self).cursor_x,
            final(self).content == old(self).content,
            final(self).modified == old(self).modified,
            final(self).filename == old(self).filename,
            final(self).search_query == old(self).search_query,
    {
        let n: usize = self.content.len();
        assert(row < n);
        self.cursor_y = row;
        if row >= self.scroll_y && row - self.scroll_y >= visible_height {
            self.scroll_y = self.scroll_y + 1;
        }
    }

    /// The line under the cursor, if the cursor stands on one.
    pub fn current_line(&self) -> (r: Option<&Vec<char>>)
        ensures
            match r {
                Some(l) => self.cursor_y < self.content@.len() && l@ == self@.lines[self.cursor_y as int],
                None => self.cursor_y >= self.content@.len(),
            },
    {
        if self.cursor_y < self.content.len() {
            Some(&self.content[self.cursor_y])
        } else {
            None
        }
    }

    /// Moves the cursor to the first occurrence of `query` in the first line
    /// that holds one, and keeps `query` as the last search term.
    pub fn search(&mut self, query: Vec<char>)
        requires
            old(self).wf(),
        ensures
            final(self).wf(),
            final(self)@ == searched(old(self)@, query@),
            final(self).search_query == Some(query),
            final(self).modified == old(self).modified,
            final(self).filename == old(self).filename,
    {
        let found = find_first(&self.content, &query);
        if let Some((k, i)) = found {
            proof {
                lemma_searched_at(self@, query@, k as int, i as int);
            }
            self.cursor_y = k;
            self.cursor_x = i;
        } else {
            assert(!exists|k: int| first_line_with(self@.lines, query@, k));
        }
        self.search_query = Some(query);
    }
}

/// Whether `q` stands in `line` from index `i` on.
fn matches_at(line: &Vec<char>, q: &Vec<char>, i: usize) -> (r: bool)
    requires
        i + q@.len() <= line@.len(),
    ensures
        r == occurs_at(line@, q@, i as int),
{
    let n: usize = line.len();
    let mut j: usize = 0;
    while j < q.len()
        invariant
            n == line@.len(),
            j <= q@.len(),
            i + q@.len() <= line@.len(),
            forall|t: int| 0 <= t < j ==> line@[i + t] == q@[t],
        decreases q@.len() - j,
    {
        if line[i + j] != q[j] {
            assert(line@.subrange(i as int, i + q@.len())[j as int] != q@[j as int]);
            return false;
        }
        j += 1;
    }
    assert(line@.subrange(i as int, i + q@.len()) =~= q@);
    true
}

/// The first index at which `q` stands in `line`.
fn find_in_line(line: &Vec<char>, q: &Vec<char>) -> (r: Option<usize>)
    ensures
        match r {
            Some(i) => first_occurrence(line@, q@, i as int),
            None => !line_contains(line@, q@),
        },
{
    if q.len() > line.len() {
        assert forall|j: int| !occurs_at(line@, q@, j) by {}
        return None;
    }
    let last = line.len() - q.len();
    let mut i: usize = 0;
    loop
        invariant
            i <= last,
            last == line@.len() - q@.len(),
            forall|j: int| 0 <= j < i ==> !occurs_at(line@, q@, j),
        decreases last - i,
    {
        if matches_at(line, q, i) {
            return Some(i);
        }
        if i == last {
            assert forall|j: int| !occurs_at(line@, q@, j) by {
                if 0 <= j < i {
                } else if j == i {
                } else {
                }
            }
            return None;
        }
        i += 1;
    }
}

/// The first line that holds `q`, and the first index of `q` in it.
fn find_first(lines: &Vec<Vec<char>>, q: &Vec<char>) -> (r: Option<(usize, usize)>)
    ensures
        match r {
            Some((k, i)) => first_line_with(lines_view(lines@), q@, k as int) && first_occurrence(
                lines_view(lines@)[k as int],
                q@,
                i as int,
            ),
            None => forall|k: int|
                0 <= k < lines@.len() ==> !line_contains(#[trigger] lines_view(lines@)[k], q@),
        },
{
    let mut k: usize = 0;
    while k < lines.len()
        invariant
            k <= lines@.len(),
            forall|j: int| 0 <= j < k ==> !line_contains(#[trigger] lines_view(lines@)[j], q@),
        decreases lines@.len() - k,
    {
        if let Some(i) = find_in_line(&lines[k], q) {
            return Some((k, i));
        }
        k += 1;
    }
    None
}

/// The search result is fixed by the first line and first index that hold `q`.
pub(crate) proof fn lemma_searched_at(s: TextState, q: Seq<char>, k: int, i: int)
    requires
        first_line_with(s.lines, q, k),
        first_occurrence(s.lines[k], q, i),
    ensures
        searched(s, q) == (TextState { row: k, col: i, ..s }),
{
    let c = choose|c: int| first_line_with(s.lines, q, c);
    assert(first_line_with(s.lines, q, c));
    if c < k {
        assert(!line_contains(s.lines[c], q));
    } else if c > k {
        assert(!line_contains(s.lines[k], q));
    }
    let d = choose|d: int| first_occurrence(s.lines[k], q, d);
    assert(first_occurrence(s.lines[k], q, d));
    if d < i {
        assert(!occurs_at(s.lines[k], q, d));
    } else if d > i {
        assert(!occurs_at(s.lines[k], q, i));
    }
}

} // verus!
