//! The document buffer: the text of the open document, held as lines, with a
//! cursor position. Every operation clamps out-of-range positions to valid
//! bounds, so the cursor invariant — line within `[0, lineCount)`, column
//! within `[0, lineLength(line)]` — survives any sequence of edits.

use vstd::prelude::*;

use crate::text::append_chars;
use crate::text::copy_range;
use crate::text::join_lines;
use crate::text::join_text;
use crate::text::lines_view;
use crate::text::split_lines;
use crate::text::split_text;
use crate::text::wf_lines;
use crate::text::lemma_split_lines_wf;

verus! {

/// The mathematical value of a buffer: its lines and its cursor.
#[verifier::ext_equal]
pub struct BufferModel {
    pub lines: Seq<Seq<char>>,
    pub cursor_line: int,
    pub cursor_col: int,
}

impl BufferModel {
    /// Well-formedness: well-formed lines, and the cursor within bounds.
    pub open spec fn wf(self) -> bool {
        &&& wf_lines(self.lines)
        &&& 0 <= self.cursor_line < self.lines.len()
        &&& 0 <= self.cursor_col <= self.lines[self.cursor_line].len()
    }

    /// The flat text: the lines joined by `'\n'`.
    pub open spec fn text(self) -> Seq<char> {
        join_lines(self.lines)
    }

    /// The buffer a new document starts from: one empty line, cursor at the
    /// origin.
    pub open spec fn empty() -> BufferModel {
        BufferModel { lines: seq![Seq::<char>::empty()], cursor_line: 0, cursor_col: 0 }
    }
}

/// Clamp a requested position to the nearest valid one: first the line to the
/// last existing line, then the column to that line's length.
pub open spec fn clamp_model(lines: Seq<Seq<char>>, line: int, col: int) -> (int, int) {
    let l = if line < lines.len() { line } else { lines.len() - 1 };
    let c = if col <= lines[l].len() { col } else { lines[l].len() as int };
    (l, c)
}

/// Inserting one character at the cursor. A newline splits the cursor's line
/// in two; any other character lengthens it by one. The cursor ends just
/// after the inserted character.
pub open spec fn insert_char_model(b: BufferModel, c: char) -> BufferModel {
    let line = b.lines[b.cursor_line];
    if c == '\n' {
        BufferModel {
            lines: b.lines.subrange(0, b.cursor_line) + seq![line.subrange(0, b.cursor_col)]
                + seq![line.subrange(b.cursor_col, line.len() as int)] + b.lines.subrange(
                b.cursor_line + 1,
                b.lines.len() as int,
            ),
            cursor_line: b.cursor_line + 1,
            cursor_col: 0,
        }
    } else {
        BufferModel {
            lines: b.lines.update(b.cursor_line, line.insert(b.cursor_col, c)),
            cursor_line: b.cursor_line,
            cursor_col: b.cursor_col + 1,
        }
    }
}

/// Inserting a text is inserting its characters in order.
pub open spec fn insert_text_model(b: BufferModel, t: Seq<char>) -> BufferModel
    decreases t.len(),
{
    if t.len() == 0 {
        b
    } else {
        insert_text_model(insert_char_model(b, t[0]), t.skip(1))
    }
}

/// Deleting the span between two positions. Both are clamped to valid bounds
/// and ordered; the text between them (the end exclusive) is removed, lines
/// at the two ends merging into one, and the cursor lands on the start.
pub open spec fn delete_range_model(b: BufferModel, l1: int, c1: int, l2: int, c2: int)
    -> BufferModel {
    let p1 = clamp_model(b.lines, l1, c1);
    let p2 = clamp_model(b.lines, l2, c2);
    let lo = if p1.0 < p2.0 || (p1.0 == p2.0 && p1.1 <= p2.1) { p1 } else { p2 };
    let hi = if p1.0 < p2.0 || (p1.0 == p2.0 && p1.1 <= p2.1) { p2 } else { p1 };
    let merged = b.lines[lo.0].subrange(0, lo.1) + b.lines[hi.0].subrange(
        hi.1,
        b.lines[hi.0].len() as int,
    );
    BufferModel {
        lines: b.lines.subrange(0, lo.0) + seq![merged] + b.lines.subrange(
            hi.0 + 1,
            b.lines.len() as int,
        ),
        cursor_line: lo.0,
        cursor_col: lo.1,
    }
}

/// Moving the cursor to a requested position, clamped; the text is untouched.
pub open spec fn move_cursor_model(b: BufferModel, line: int, col: int) -> BufferModel {
    let p = clamp_model(b.lines, line, col);
    BufferModel { lines: b.lines, cursor_line: p.0, cursor_col: p.1 }
}

/// Replacing the whole content, as a load does: the new text split into
/// lines, the cursor back at the origin.
pub open spec fn replace_all_model(t: Seq<char>) -> BufferModel {
    BufferModel { lines: split_lines(t), cursor_line: 0, cursor_col: 0 }
}

pub proof fn lemma_insert_char_model_wf(b: BufferModel, c: char)
    requires
        b.wf(),
    ensures
        insert_char_model(b, c).wf(),
{
    let line = b.lines[b.cursor_line];
    let r = insert_char_model(b, c);
    if c == '\n' {
        assert forall|i: int| 0 <= i < r.lines.len() implies !(#[trigger] r.lines[i]).contains(
            '\n',
        ) by {
            if i < b.cursor_line {
                assert(r.lines[i] == b.lines[i]);
            } else if i == b.cursor_line {
                assert(r.lines[i] == line.subrange(0, b.cursor_col));
                assert(!b.lines[b.cursor_line].contains('\n'));
                assert(forall|j: int|
                    0 <= j < r.lines[i].len() ==> r.lines[i][j] == line[j] && line[j] != '\n');
            } else if i == b.cursor_line + 1 {
                assert(r.lines[i] == line.subrange(b.cursor_col, line.len() as int));
                assert(forall|j: int|
                    0 <= j < r.lines[i].len() ==> r.lines[i][j] == line[j + b.cursor_col] && line[j
                        + b.cursor_col] != '\n');
            } else {
                assert(r.lines[i] == b.lines[i - 1]);
            }
        }
    } else {
        let nl = line.insert(b.cursor_col, c);
        assert(!nl.contains('\n')) by {
            assert(forall|j: int| 0 <= j < nl.len() ==> nl[j] == c || line.contains(#[trigger] nl[j]));
        }
        assert(forall|i: int| 0 <= i < r.lines.len() ==> !(#[trigger] r.lines[i]).contains('\n'));
    }
}

pub proof fn lemma_insert_text_model_wf(b: BufferModel, t: Seq<char>)
    requires
        b.wf(),
    ensures
        insert_text_model(b, t).wf(),
    decreases t.len(),
{
    if t.len() > 0 {
        lemma_insert_char_model_wf(b, t[0]);
        lemma_insert_text_model_wf(insert_char_model(b, t[0]), t.skip(1));
    }
}

/// Inserting the characters of `t` and then one more character `c` is
/// inserting the characters of `t.push(c)`.
pub proof fn lemma_insert_text_model_push(b: BufferModel, t: Seq<char>, c: char)
    ensures
        insert_text_model(b, t.push(c)) == insert_char_model(insert_text_model(b, t), c),
    decreases t.len(),
{
    reveal_with_fuel(insert_text_model, 3);
    if t.len() == 0 {
        assert(t.push(c)[0] == c);
        assert(t.push(c).skip(1) =~= Seq::<char>::empty());
    } else {
        lemma_insert_text_model_push(insert_char_model(b, t[0]), t.skip(1), c);
        assert(t.push(c)[0] == t[0]);
        assert(t.push(c).skip(1) =~= t.skip(1).push(c));
    }
}

pub proof fn lemma_delete_range_model_wf(b: BufferModel, l1: int, c1: int, l2: int, c2: int)
    requires
        b.wf(),
        l1 >= 0 && c1 >= 0 && l2 >= 0 && c2 >= 0,
    ensures
        delete_range_model(b, l1, c1, l2, c2).wf(),
{
    let r = delete_range_model(b, l1, c1, l2, c2);
    assert forall|i: int| 0 <= i < r.lines.len() implies !(#[trigger] r.lines[i]).contains('\n') by {
        let p1 = clamp_model(b.lines, l1, c1);
        let p2 = clamp_model(b.lines, l2, c2);
        let lo = if p1.0 < p2.0 || (p1.0 == p2.0 && p1.1 <= p2.1) { p1 } else { p2 };
        let hi = if p1.0 < p2.0 || (p1.0 == p2.0 && p1.1 <= p2.1) { p2 } else { p1 };
        if i < lo.0 {
            assert(r.lines[i] == b.lines[i]);
        } else if i == lo.0 {
            let a = b.lines[lo.0];
            let z = b.lines[hi.0];
            assert(!a.contains('\n'));
            assert(!z.contains('\n'));
            assert(forall|j: int|
                0 <= j < r.lines[i].len() ==> a.contains(#[trigger] r.lines[i][j]) || z.contains(
                    r.lines[i][j],
                ));
        } else {
            assert(r.lines[i] == b.lines[i + hi.0 - lo.0]);
        }
    }
}

pub proof fn lemma_move_cursor_model_wf(b: BufferModel, line: int, col: int)
    requires
        b.wf(),
        line >= 0 && col >= 0,
    ensures
        move_cursor_model(b, line, col).wf(),
        move_cursor_model(b, line, col).lines == b.lines,
{
}

pub proof fn lemma_replace_all_model_wf(t: Seq<char>)
    ensures
        replace_all_model(t).wf(),
{
    lemma_split_lines_wf(t);
}

/// The document buffer. Lines never contain `'\n'`; the cursor always
/// addresses a valid line and a column no further than that line's end.
pub struct Buffer {
    lines: Vec<Vec<char>>,
    cursor_line: usize,
    cursor_col: usize,
}

impl View for Buffer {
    type V = BufferModel;

    closed spec fn view(&self) -> BufferModel {
        BufferModel {
            lines: lines_view(self.lines@),
            cursor_line: self.cursor_line as int,
            cursor_col: self.cursor_col as int,
        }
    }
}

impl Buffer {
    /// A new, empty document.
    pub fn new() -> (b: Buffer)
        ensures
            b@ == BufferModel::empty(),
            b@.wf(),
    {
        let mut lines: Vec<Vec<char>> = Vec::new();
        lines.push(Vec::new());
        let b = Buffer { lines, cursor_line: 0, cursor_col: 0 };
        proof {
            assert(b@.lines =~= BufferModel::empty().lines);
            assert(b@ =~= BufferModel::empty());
        }
        b
    }

    /// The cursor position, 0-indexed as (line, column).
    pub fn cursor_position(&self) -> (p: (usize, usize))
        ensures
            p.0 as int == self@.cursor_line,
            p.1 as int == self@.cursor_col,
    {
        (self.cursor_line, self.cursor_col)
    }

    /// How many lines the document has.
    pub fn line_count(&self) -> (n: usize)
        ensures
            n as int == self@.lines.len(),
    {
        self.lines.len()
    }

    /// The length of line `l`.
    pub fn line_len(&self, l: usize) -> (n: usize)
        requires
            l < self@.lines.len(),
        ensures
            n as int == self@.lines[l as int].len(),
    {
        self.lines[l].len()
    }

    /// The flat text of the document.
    pub fn text(&self) -> (t: Vec<char>)
        requires
            self@.wf(),
        ensures
            t@ == self@.text(),
    {
        join_text(&self.lines)
    }

    /// Insert one character at the cursor.
    pub fn insert_char(&mut self, c: char)
        requires
            old(self)@.wf(),
        ensures
            final(self)@ == insert_char_model(old(self)@, c),
            final(self)@.wf(),
    {
        proof {
            lemma_insert_char_model_wf(old(self)@, c);
        }
        if c == '\n' {
            let line_count = self.lines.len();
            let mut line = self.lines.remove(self.cursor_line);
            let tail = copy_range(&line, self.cursor_col, line.len());
            line.truncate(self.cursor_col);
            self.lines.insert(self.cursor_line, line);
            self.lines.insert(self.cursor_line + 1, tail);
            self.cursor_line = self.cursor_line + 1;
            self.cursor_col = 0;
            proof {
                assert(self@.lines =~= insert_char_model(old(self)@, c).lines);
                assert(self@ =~= insert_char_model(old(self)@, c));
            }
        } else {
            let mut line = self.lines.remove(self.cursor_line);
            line.insert(self.cursor_col, c);
            let new_len = line.len();
            self.lines.insert(self.cursor_line, line);
            self.cursor_col = self.cursor_col + 1;
            proof {
                assert(self@.lines =~= insert_char_model(old(self)@, c).lines);
                assert(self@ =~= insert_char_model(old(self)@, c));
            }
        }
    }

    /// Insert a text at the cursor, character by character.
    pub fn insert(&mut self, t: &Vec<char>)
        requires
            old(self)@.wf(),
        ensures
            final(self)@ == insert_text_model(old(self)@, t@),
            final(self)@.wf(),
    {
        let mut i: usize = 0;
        proof {
            assert(t@.subrange(0, 0) =~= Seq::<char>::empty());
        }
        while i < t.len()
            invariant
                i <= t@.len(),
                self@.wf(),
                self@ == insert_text_model(old(self)@, t@.subrange(0, i as int)),
            decreases t@.len() - i,
        {
            let ghost prefix = t@.subrange(0, i as int);
            proof {
                lemma_insert_text_model_push(old(self)@, prefix, t@[i as int]);
                assert(t@.subrange(0, i + 1 as int) =~= prefix.push(t@[i as int]));
            }
            self.insert_char(t[i]);
            i = i + 1;
        }
        proof {
            assert(t@.subrange(0, t@.len() as int) =~= t@);
        }
    }

    /// Delete the span between two positions, both clamped to valid bounds.
    #[verifier::rlimit(80)]
    pub fn delete_range(&mut self, l1: usize, c1: usize, l2: usize, c2: usize)
        requires
            old(self)@.wf(),
        ensures
            final(self)@ == delete_range_model(old(self)@, l1 as int, c1 as int, l2 as int, c2 as int),
            final(self)@.wf(),
    {
        proof {
            lemma_delete_range_model_wf(old(self)@, l1 as int, c1 as int, l2 as int, c2 as int);
        }
        let (a_l, a_c, b_l, b_c) = self.clamp_and_order(l1, c1, l2, c2);
        let tail = copy_range(&self.lines[b_l], b_c, self.lines[b_l].len());
        let mut removed: usize = 0;
        let ghost mid = lines_view(self.lines@);
        proof {
            assert(lines_view(self.lines@) =~= mid.subrange(0, a_l + 1) + mid.subrange(
                a_l + 1 as int,
                mid.len() as int,
            ));
        }
        while removed < b_l - a_l
            invariant
                a_l <= b_l < mid.len(),
                removed <= b_l - a_l,
                a_c as int <= mid[a_l as int].len(),
                lines_view(self.lines@) == mid.subrange(0, a_l + 1) + mid.subrange(
                    a_l + 1 + removed,
                    mid.len() as int,
                ),
            decreases b_l - a_l - removed,
        {
            proof {
                assert(lines_view(self.lines@).len() == self.lines@.len());
                assert(self.lines@.len() == mid.len() - removed);
                assert(a_l + 1 < self.lines@.len());
            }
            let ghost before = lines_view(self.lines@);
            let _ = self.lines.remove(a_l + 1);
            proof {
                assert(lines_view(self.lines@) =~= before.remove(a_l + 1 as int));
            }
            removed = removed + 1;
            proof {
                assert(lines_view(self.lines@) =~= mid.subrange(0, a_l + 1) + mid.subrange(
                    a_l + 1 + removed,
                    mid.len() as int,
                ));
            }
        }
        let ghost after_loop = lines_view(self.lines@);
        let mut line = self.lines.remove(a_l);
        proof {
            assert(line@ == after_loop[a_l as int]);
            assert(after_loop[a_l as int] == mid[a_l as int]);
            assert(lines_view(self.lines@) =~= after_loop.remove(a_l as int));
        }
        line.truncate(a_c);
        append_chars(&mut line, &tail);
        self.lines.insert(a_l, line);
        self.cursor_line = a_l;
        self.cursor_col = a_c;
        proof {
            let m = delete_range_model(old(self)@, l1 as int, c1 as int, l2 as int, c2 as int);
            assert(line@ == mid[a_l as int].subrange(0, a_c as int) + mid[b_l as int].subrange(
                b_c as int,
                mid[b_l as int].len() as int,
            ));
            assert(lines_view(self.lines@) =~= after_loop.remove(a_l as int).insert(
                a_l as int,
                line@,
            ));
            assert(self@.lines =~= m.lines);
            assert(self@ =~= m);
        }
    }

    /// Move the cursor to a requested position, clamped to valid bounds.
    /// Pure movement: the text is untouched.
    pub fn move_cursor(&mut self, line: usize, col: usize)
        requires
            old(self)@.wf(),
        ensures
            final(self)@ == move_cursor_model(old(self)@, line as int, col as int),
            final(self)@.wf(),
    {
        proof {
            lemma_move_cursor_model_wf(old(self)@, line as int, col as int);
        }
        let l = if line < self.lines.len() {
            line
        } else {
            self.lines.len() - 1
        };
        let c = if col <= self.lines[l].len() {
            col
        } else {
            self.lines[l].len()
        };
        self.cursor_line = l;
        self.cursor_col = c;
        proof {
            assert(self@ =~= move_cursor_model(old(self)@, line as int, col as int));
        }
    }

    /// Replace the whole content, as a successful load does; the cursor
    /// returns to the origin.
    pub fn replace_all(&mut self, t: &Vec<char>)
        ensures
            final(self)@ == replace_all_model(t@),
            final(self)@.wf(),
    {
        proof {
            lemma_replace_all_model_wf(t@);
        }
        self.lines = split_text(t);
        self.cursor_line = 0;
        self.cursor_col = 0;
        proof {
            assert(self@ =~= replace_all_model(t@));
        }
    }

    /// Clamp two positions and order them, the earlier first.
    fn clamp_and_order(&self, l1: usize, c1: usize, l2: usize, c2: usize) -> (r: (
        usize,
        usize,
        usize,
        usize,
    ))
        requires
            self@.wf(),
        ensures
            ({
                let p1 = clamp_model(self@.lines, l1 as int, c1 as int);
                let p2 = clamp_model(self@.lines, l2 as int, c2 as int);
                let lo = if p1.0 < p2.0 || (p1.0 == p2.0 && p1.1 <= p2.1) { p1 } else { p2 };
                let hi = if p1.0 < p2.0 || (p1.0 == p2.0 && p1.1 <= p2.1) { p2 } else { p1 };
                r.0 as int == lo.0 && r.1 as int == lo.1 && r.2 as int == hi.0 && r.3 as int
                    == hi.1
            }),
            r.0 <= r.2 < self@.lines.len(),
            r.1 as int <= self@.lines[r.0 as int].len(),
            r.3 as int <= self@.lines[r.2 as int].len(),
            r.0 == r.2 ==> r.1 <= r.3,
    {
        let al = if l1 < self.lines.len() {
            l1
        } else {
            self.lines.len() - 1
        };
        let ac = if c1 <= self.lines[al].len() {
            c1
        } else {
            self.lines[al].len()
        };
        let bl = if l2 < self.lines.len() {
            l2
        } else {
            self.lines.len() - 1
        };
        let bc = if c2 <= self.lines[bl].len() {
            c2
        } else {
            self.lines[bl].len()
        };
        if al < bl || (al == bl && ac <= bc) {
            (al, ac, bl, bc)
        } else {
            (bl, bc, al, ac)
        }
    }
}

} // verus!
