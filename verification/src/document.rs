//! The editable document: a non-empty sequence of lines, a cursor, an
//! optional selection anchor, and linear undo/redo history. Every edit is a
//! region splice recorded together with its inverse, so undo and redo are
//! proved to restore and reapply content exactly.
use vstd::prelude::*;

use crate::region::{
    end_col, end_line, extract, extract_vec, lemma_extract_of_splice, lemma_extract_wf,
    lemma_splice_round_trip, pos_le, pos_le_exec, splice, splice_vec, valid_pos, valid_region,
    wf_block, Pos,
};
use crate::text::views_of;

verus! {

/// One recorded edit: at `at`, the block `old_text` was replaced by
/// `new_text`. Replaying it forward applies the edit; replaying it backward
/// (putting `old_text` back over `new_text`) undoes it.
pub struct Edit {
    pub at: Pos,
    pub old_text: Vec<Vec<char>>,
    pub new_text: Vec<Vec<char>>,
}

/// The mathematical content of an `Edit`.
pub ghost struct EditView {
    pub at: Pos,
    pub old_text: Seq<Seq<char>>,
    pub new_text: Seq<Seq<char>>,
}

impl View for Edit {
    type V = EditView;

    open spec fn view(&self) -> EditView {
        EditView {
            at: self.at,
            old_text: views_of(self.old_text@),
            new_text: views_of(self.new_text@),
        }
    }
}

/// The views of a stack of recorded edits.
pub open spec fn edit_views(s: Seq<Edit>) -> Seq<EditView> {
    s.map_values(|e: Edit| e@)
}

/// Both blocks of an edit are well-formed line blocks.
pub open spec fn edit_wf(e: EditView) -> bool {
    wf_block(e.old_text) && wf_block(e.new_text)
}

/// The edit can be replayed forward on `lines`: its `old_text` sits at `at`.
pub open spec fn fwd_ok(lines: Seq<Seq<char>>, e: EditView) -> bool {
    let l1 = end_line(e.at.line as int, e.old_text);
    let c1 = end_col(e.at.col as int, e.old_text);
    valid_region(lines, e.at.line as int, e.at.col as int, l1, c1) && extract(
        lines,
        e.at.line as int,
        e.at.col as int,
        l1,
        c1,
    ) == e.old_text
}

/// `lines` with the edit replayed forward.
pub open spec fn apply_fwd(lines: Seq<Seq<char>>, e: EditView) -> Seq<Seq<char>> {
    splice(
        lines,
        e.at.line as int,
        e.at.col as int,
        end_line(e.at.line as int, e.old_text),
        end_col(e.at.col as int, e.old_text),
        e.new_text,
    )
}

/// The edit can be replayed backward on `lines`: its `new_text` sits at `at`.
pub open spec fn bwd_ok(lines: Seq<Seq<char>>, e: EditView) -> bool {
    let l1 = end_line(e.at.line as int, e.new_text);
    let c1 = end_col(e.at.col as int, e.new_text);
    valid_region(lines, e.at.line as int, e.at.col as int, l1, c1) && extract(
        lines,
        e.at.line as int,
        e.at.col as int,
        l1,
        c1,
    ) == e.new_text
}

/// `lines` with the edit replayed backward.
pub open spec fn apply_bwd(lines: Seq<Seq<char>>, e: EditView) -> Seq<Seq<char>> {
    splice(
        lines,
        e.at.line as int,
        e.at.col as int,
        end_line(e.at.line as int, e.new_text),
        end_col(e.at.col as int, e.new_text),
        e.old_text,
    )
}

/// The undo stack is coherent with `lines`: each record, from the top down,
/// can be replayed backward on the text the records above it leave behind.
pub open spec fn undo_ok(lines: Seq<Seq<char>>, stack: Seq<EditView>) -> bool
    decreases stack.len(),
{
    stack.len() == 0 || {
        let e = stack.last();
        edit_wf(e) && bwd_ok(lines, e) && undo_ok(apply_bwd(lines, e), stack.drop_last())
    }
}

/// The redo stack is coherent with `lines`: each record, from the top down,
/// can be replayed forward on the text the records above it produce.
pub open spec fn redo_ok(lines: Seq<Seq<char>>, stack: Seq<EditView>) -> bool
    decreases stack.len(),
{
    stack.len() == 0 || {
        let e = stack.last();
        edit_wf(e) && fwd_ok(lines, e) && redo_ok(apply_fwd(lines, e), stack.drop_last())
    }
}

/// The position at which a block placed at `at` ends, computed without
/// overflow because the block's region lies inside `lines`.
fn block_end(lines: &Vec<Vec<char>>, at: Pos, t: &Vec<Vec<char>>) -> (p: Pos)
    requires
        wf_block(views_of(t@)),
        valid_region(
            views_of(lines@),
            at.line as int,
            at.col as int,
            end_line(at.line as int, views_of(t@)),
            end_col(at.col as int, views_of(t@)),
        ),
    ensures
        p.line as int == end_line(at.line as int, views_of(t@)),
        p.col as int == end_col(at.col as int, views_of(t@)),
{
    if t.len() == 1 {
        let n = lines[at.line].len();
        proof {
            assert(views_of(lines@)[at.line as int].len() == n);
            assert(at.col + views_of(t@)[0].len() <= n);
        }
        Pos { line: at.line, col: at.col + t[0].len() }
    } else {
        let n = lines.len();
        proof {
            assert(at.line + views_of(t@).len() <= n);
        }
        Pos { line: at.line + t.len() - 1, col: t[t.len() - 1].len() }
    }
}

/// `post` is `pre` with the region `(l0, c0)..(l1, c1)` replaced by `t`,
/// that edit recorded as the newest undo entry, the redo stack and the
/// selection cleared, and the cursor at the end of the inserted block.
pub open spec fn edited(
    pre: DocView,
    post: DocView,
    l0: int,
    c0: int,
    l1: int,
    c1: int,
    t: Seq<Seq<char>>,
) -> bool {
    &&& post.lines == splice(pre.lines, l0, c0, l1, c1, t)
    &&& post.undo_edits == pre.undo_edits.push(
        EditView {
            at: Pos { line: l0 as usize, col: c0 as usize },
            old_text: extract(pre.lines, l0, c0, l1, c1),
            new_text: t,
        },
    )
    &&& post.redo_edits.len() == 0
    &&& post.anchor is None
    &&& post.cursor.line == end_line(l0, t)
    &&& post.cursor.col == end_col(c0, t)
}

/// A cursor movement unit. Every movement clamps at the buffer's edges and
/// never fails.
#[derive(Clone, Copy, PartialEq, Eq, Structural, Debug)]
pub enum Move {
    Left,
    Right,
    Up,
    Down,
    LineHead,
    LineEnd,
    WordForward,
    WordBack,
    ParaForward,
    ParaBack,
}

/// A horizontal whitespace character: a word separator within a line.
pub open spec fn is_blank(c: char) -> bool {
    c == ' ' || c == '\t'
}

/// The first index at or after `j` whose character is blank, or the line end.
pub open spec fn scan_word(line: Seq<char>, j: int) -> int
    decreases line.len() - j,
{
    if j < 0 || j >= line.len() || is_blank(line[j]) {
        j
    } else {
        scan_word(line, j + 1)
    }
}

/// The first index at or after `j` whose character is not blank, or the line
/// end.
pub open spec fn scan_gap(line: Seq<char>, j: int) -> int
    decreases line.len() - j,
{
    if j < 0 || j >= line.len() || !is_blank(line[j]) {
        j
    } else {
        scan_gap(line, j + 1)
    }
}

/// The last index at or before `j` with no blank immediately before it.
pub open spec fn scan_gap_back(line: Seq<char>, j: int) -> int
    decreases j,
{
    if j <= 0 || j > line.len() || !is_blank(line[j - 1]) {
        j
    } else {
        scan_gap_back(line, j - 1)
    }
}

/// The last index at or before `j` with no word character immediately before
/// it.
pub open spec fn scan_word_back(line: Seq<char>, j: int) -> int
    decreases j,
{
    if j <= 0 || j > line.len() || is_blank(line[j - 1]) {
        j
    } else {
        scan_word_back(line, j - 1)
    }
}

/// The first empty line at or after line `j`, or the last line.
pub open spec fn next_break(lines: Seq<Seq<char>>, j: int) -> int
    decreases lines.len() - j,
{
    if j < 0 || j >= lines.len() {
        lines.len() - 1
    } else if lines[j].len() == 0 {
        j
    } else {
        next_break(lines, j + 1)
    }
}

/// The last empty line strictly before line `j`, or line 0.
pub open spec fn prev_break(lines: Seq<Seq<char>>, j: int) -> int
    decreases j,
{
    if j <= 0 || j > lines.len() {
        0
    } else if lines[j - 1].len() == 0 {
        j - 1
    } else {
        prev_break(lines, j - 1)
    }
}

/// Where each movement unit takes the cursor from `p`, as a line/column pair.
pub open spec fn move_target(lines: Seq<Seq<char>>, p: Pos, m: Move) -> (int, int) {
    let l = p.line as int;
    let c = p.col as int;
    match m {
        Move::Left => if c > 0 {
            (l, c - 1)
        } else if l > 0 {
            (l - 1, lines[l - 1].len() as int)
        } else {
            (0, 0)
        },
        Move::Right => if c < lines[l].len() {
            (l, c + 1)
        } else if l + 1 < lines.len() {
            (l + 1, 0)
        } else {
            (l, c)
        },
        Move::Up => if l > 0 {
            (l - 1, if c <= lines[l - 1].len() {
                c
            } else {
                lines[l - 1].len() as int
            })
        } else {
            (l, c)
        },
        Move::Down => if l + 1 < lines.len() {
            (l + 1, if c <= lines[l + 1].len() {
                c
            } else {
                lines[l + 1].len() as int
            })
        } else {
            (l, c)
        },
        Move::LineHead => (l, 0),
        Move::LineEnd => (l, lines[l].len() as int),
        Move::WordForward => if c < lines[l].len() {
            (l, scan_gap(lines[l], scan_word(lines[l], c)))
        } else if l + 1 < lines.len() {
            (l + 1, 0)
        } else {
            (l, c)
        },
        Move::WordBack => if c > 0 {
            (l, scan_word_back(lines[l], scan_gap_back(lines[l], c)))
        } else if l > 0 {
            (l - 1, lines[l - 1].len() as int)
        } else {
            (0, 0)
        },
        Move::ParaForward => (next_break(lines, l + 1), 0),
        Move::ParaBack => (prev_break(lines, l), 0),
    }
}

/// The forward scans stay within the line and never move left.
pub proof fn lemma_scan_bounds_fwd(line: Seq<char>, j: int)
    requires
        0 <= j <= line.len(),
    ensures
        j <= scan_word(line, j) <= line.len(),
        j <= scan_gap(line, j) <= line.len(),
    decreases line.len() - j,
{
    if j < line.len() {
        lemma_scan_bounds_fwd(line, j + 1);
    }
}

/// The backward scans stay within the line and never move right.
pub proof fn lemma_scan_bounds_back(line: Seq<char>, j: int)
    requires
        0 <= j <= line.len(),
    ensures
        0 <= scan_gap_back(line, j) <= j,
        0 <= scan_word_back(line, j) <= j,
    decreases j,
{
    if j > 0 {
        lemma_scan_bounds_back(line, j - 1);
    }
}

/// The movement target is always a valid position.
pub proof fn lemma_move_target_valid(lines: Seq<Seq<char>>, p: Pos, m: Move)
    requires
        lines.len() >= 1,
        valid_pos(lines, p),
    ensures
        ({
            let (l, c) = move_target(lines, p, m);
            &&& 0 <= l < lines.len()
            &&& 0 <= c <= lines[l].len()
        }),
{
    let line = lines[p.line as int];
    lemma_scan_bounds_fwd(line, p.col as int);
    if (p.col as int) < line.len() {
        lemma_scan_bounds_fwd(line, scan_word(line, p.col as int));
    }
    lemma_scan_bounds_back(line, p.col as int);
    if scan_gap_back(line, p.col as int) >= 0 {
        lemma_scan_bounds_back(line, scan_gap_back(line, p.col as int));
    }
    lemma_break_bounds_fwd(lines, p.line + 1);
    lemma_break_bounds_back(lines, p.line as int);
}

/// The next paragraph break is a valid line.
pub proof fn lemma_break_bounds_fwd(lines: Seq<Seq<char>>, j: int)
    requires
        lines.len() >= 1,
    ensures
        0 <= next_break(lines, j) < lines.len(),
    decreases lines.len() - j,
{
    if 0 <= j < lines.len() && lines[j].len() != 0 {
        lemma_break_bounds_fwd(lines, j + 1);
    }
}

/// The previous paragraph break is a valid line.
pub proof fn lemma_break_bounds_back(lines: Seq<Seq<char>>, j: int)
    requires
        lines.len() >= 1,
    ensures
        0 <= prev_break(lines, j) < lines.len(),
    decreases j,
{
    if 0 < j <= lines.len() && lines[j - 1].len() != 0 {
        lemma_break_bounds_back(lines, j - 1);
    }
}

/// The editable text buffer.
pub struct Document {
    lines: Vec<Vec<char>>,
    cursor: Pos,
    anchor: Option<Pos>,
    undo_edits: Vec<Edit>,
    redo_edits: Vec<Edit>,
}

/// The mathematical content of a `Document`.
pub ghost struct DocView {
    pub lines: Seq<Seq<char>>,
    pub cursor: Pos,
    pub anchor: Option<Pos>,
    pub undo_edits: Seq<EditView>,
    pub redo_edits: Seq<EditView>,
}

impl View for Document {
    type V = DocView;

    closed spec fn view(&self) -> DocView {
        DocView {
            lines: views_of(self.lines@),
            cursor: self.cursor,
            anchor: self.anchor,
            undo_edits: edit_views(self.undo_edits@),
            redo_edits: edit_views(self.redo_edits@),
        }
    }
}

/// A well-formed document: at least one line, cursor and anchor inside the
/// text, and both history stacks coherent with it.
pub open spec fn doc_wf(d: DocView) -> bool {
    &&& d.lines.len() >= 1
    &&& valid_pos(d.lines, d.cursor)
    &&& match d.anchor {
        Some(a) => valid_pos(d.lines, a),
        None => true,
    }
    &&& undo_ok(d.lines, d.undo_edits)
    &&& redo_ok(d.lines, d.redo_edits)
}

impl Document {
    /// Whether this document is well formed; every operation preserves it.
    pub open spec fn wf(&self) -> bool {
        doc_wf(self@)
    }

    /// An empty document: one empty line, cursor at its start, no selection,
    /// no history.
    pub fn new() -> (d: Document)
        ensures
            d.wf(),
            d@.lines == seq![Seq::<char>::empty()],
            d@.cursor == (Pos { line: 0, col: 0 }),
            d@.anchor is None,
            d@.undo_edits.len() == 0,
            d@.redo_edits.len() == 0,
    {
        let mut lines: Vec<Vec<char>> = Vec::new();
        lines.push(Vec::new());
        let d = Document {
            lines,
            cursor: Pos { line: 0, col: 0 },
            anchor: None,
            undo_edits: Vec::new(),
            redo_edits: Vec::new(),
        };
        proof {
            assert(d@.lines =~~= seq![Seq::<char>::empty()]);
            assert(d@.undo_edits =~= Seq::<EditView>::empty());
            assert(d@.redo_edits =~= Seq::<EditView>::empty());
        }
        d
    }

    /// Replaces the whole content: cursor returns to the origin, the
    /// selection and both history stacks are discarded. This is the deliberate
    /// wholesale reset used by page loads and by reflow, not an edit.
    pub fn replace_wholesale(&mut self, lines: Vec<Vec<char>>)
        requires
            lines@.len() >= 1,
        ensures
            final(self).wf(),
            final(self)@.lines == views_of(lines@),
            final(self)@.cursor == (Pos { line: 0, col: 0 }),
            final(self)@.anchor is None,
            final(self)@.undo_edits.len() == 0,
            final(self)@.redo_edits.len() == 0,
    {
        self.lines = lines;
        self.cursor = Pos { line: 0, col: 0 };
        self.anchor = None;
        self.undo_edits = Vec::new();
        self.redo_edits = Vec::new();
        proof {
            assert(self@.undo_edits =~= Seq::<EditView>::empty());
            assert(self@.redo_edits =~= Seq::<EditView>::empty());
        }
    }

    /// Replaces the region `(l0, c0)..(l1, c1)` by the block `t`, records the
    /// edit on the undo stack, clears the redo stack and the selection, and
    /// leaves the cursor at the end of the inserted block.
    fn apply_replace(&mut self, l0: usize, c0: usize, l1: usize, c1: usize, t: Vec<Vec<char>>)
        requires
            old(self).wf(),
            valid_region(old(self)@.lines, l0 as int, c0 as int, l1 as int, c1 as int),
            wf_block(views_of(t@)),
        ensures
            final(self).wf(),
            final(self)@.lines == splice(
                old(self)@.lines,
                l0 as int,
                c0 as int,
                l1 as int,
                c1 as int,
                views_of(t@),
            ),
            final(self)@.undo_edits == old(self)@.undo_edits.push(
                EditView {
                    at: Pos { line: l0, col: c0 },
                    old_text: extract(old(self)@.lines, l0 as int, c0 as int, l1 as int, c1 as int),
                    new_text: views_of(t@),
                },
            ),
            final(self)@.redo_edits.len() == 0,
            final(self)@.anchor is None,
            final(self)@.cursor.line == end_line(l0 as int, views_of(t@)),
            final(self)@.cursor.col == end_col(c0 as int, views_of(t@)),
    {
        let ghost pre = self@;
        let ghost tv = views_of(t@);
        let old_block = extract_vec(&self.lines, l0, c0, l1, c1);
        let new_lines = splice_vec(&self.lines, l0, c0, l1, c1, &t);
        proof {
            lemma_extract_wf(pre.lines, l0 as int, c0 as int, l1 as int, c1 as int);
            lemma_extract_of_splice(pre.lines, l0 as int, c0 as int, l1 as int, c1 as int, tv);
            lemma_splice_round_trip(pre.lines, l0 as int, c0 as int, l1 as int, c1 as int, tv);
        }
        let ncur: Pos = block_end(&new_lines, Pos { line: l0, col: c0 }, &t);
        let rec = Edit { at: Pos { line: l0, col: c0 }, old_text: old_block, new_text: t };
        self.lines = new_lines;
        self.cursor = ncur;
        self.anchor = None;
        let ghost pre_undo = edit_views(self.undo_edits@);
        self.undo_edits.push(rec);
        self.redo_edits = Vec::new();
        proof {
            let ev = EditView {
                at: Pos { line: l0, col: c0 },
                old_text: extract(pre.lines, l0 as int, c0 as int, l1 as int, c1 as int),
                new_text: tv,
            };
            assert(rec@ == ev);
            assert(edit_views(self.undo_edits@) =~= pre_undo.push(ev));
            assert(edit_views(self.redo_edits@) =~= Seq::<EditView>::empty());
            assert(self@.undo_edits.drop_last() =~= pre.undo_edits);
            assert(bwd_ok(self@.lines, ev));
            assert(apply_bwd(self@.lines, ev) == pre.lines);
            assert(undo_ok(self@.lines, self@.undo_edits));
            assert(redo_ok(self@.lines, self@.redo_edits));
        }
    }

    /// Undoes the most recent edit, if any: its recorded old content is put
    /// back, the record moves to the redo stack, and the cursor is left at
    /// the end of the restored block. Reports whether anything was undone;
    /// an empty history is a quiet no-op, not an error.
    pub fn undo(&mut self) -> (r: bool)
        requires
            old(self).wf(),
        ensures
            final(self).wf(),
            old(self)@.undo_edits.len() == 0 ==> !r && final(self)@ == old(self)@,
            old(self)@.undo_edits.len() > 0 ==> {
                let e = old(self)@.undo_edits.last();
                &&& r
                &&& final(self)@.lines == apply_bwd(old(self)@.lines, e)
                &&& final(self)@.undo_edits == old(self)@.undo_edits.drop_last()
                &&& final(self)@.redo_edits == old(self)@.redo_edits.push(e)
                &&& final(self)@.anchor is None
                &&& final(self)@.cursor.line == end_line(e.at.line as int, e.old_text)
                &&& final(self)@.cursor.col == end_col(e.at.col as int, e.old_text)
            },
    {
        if self.undo_edits.len() == 0 {
            return false;
        }
        let ghost pre = self@;
        let e = self.undo_edits.pop().unwrap();
        proof {
            assert(e@ == pre.undo_edits.last());
            assert(edit_views(self.undo_edits@) =~= pre.undo_edits.drop_last());
            assert(bwd_ok(pre.lines, e@));
            assert(edit_wf(e@));
        }
        let reg_end = block_end(&self.lines, e.at, &e.new_text);
        let new_lines = splice_vec(
            &self.lines,
            e.at.line,
            e.at.col,
            reg_end.line,
            reg_end.col,
            &e.old_text,
        );
        proof {
            lemma_extract_of_splice(
                pre.lines,
                e.at.line as int,
                e.at.col as int,
                reg_end.line as int,
                reg_end.col as int,
                e@.old_text,
            );
            lemma_splice_round_trip(
                pre.lines,
                e.at.line as int,
                e.at.col as int,
                reg_end.line as int,
                reg_end.col as int,
                e@.old_text,
            );
        }
        let ncur: Pos = block_end(&new_lines, e.at, &e.old_text);
        self.lines = new_lines;
        self.cursor = ncur;
        self.anchor = None;
        let ghost pre_redo = edit_views(self.redo_edits@);
        self.redo_edits.push(e);
        proof {
            assert(edit_views(self.redo_edits@) =~= pre_redo.push(pre.undo_edits.last()));
            assert(fwd_ok(self@.lines, pre.undo_edits.last()));
            assert(apply_fwd(self@.lines, pre.undo_edits.last()) == pre.lines);
            assert(undo_ok(self@.lines, self@.undo_edits));
            assert(self@.redo_edits.last() == pre.undo_edits.last());
            assert(self@.redo_edits.drop_last() =~= pre.redo_edits);
            assert(redo_ok(pre.lines, pre.redo_edits));
            assert(redo_ok(self@.lines, self@.redo_edits));
        }
        true
    }

    /// Reapplies the most recently undone edit, if any: its recorded new
    /// content replaces the old again and the record moves back to the undo
    /// stack. Reports whether anything was redone; an empty redo stack is a
    /// quiet no-op.
    pub fn redo(&mut self) -> (r: bool)
        requires
            old(self).wf(),
        ensures
            final(self).wf(),
            old(self)@.redo_edits.len() == 0 ==> !r && final(self)@ == old(self)@,
            old(self)@.redo_edits.len() > 0 ==> {
                let e = old(self)@.redo_edits.last();
                &&& r
                &&& final(self)@.lines == apply_fwd(old(self)@.lines, e)
                &&& final(self)@.redo_edits == old(self)@.redo_edits.drop_last()
                &&& final(self)@.undo_edits == old(self)@.undo_edits.push(e)
                &&& final(self)@.anchor is None
                &&& final(self)@.cursor.line == end_line(e.at.line as int, e.new_text)
                &&& final(self)@.cursor.col == end_col(e.at.col as int, e.new_text)
            },
    {
        if self.redo_edits.len() == 0 {
            return false;
        }
        let ghost pre = self@;
        let e = self.redo_edits.pop().unwrap();
        proof {
            assert(e@ == pre.redo_edits.last());
            assert(edit_views(self.redo_edits@) =~= pre.redo_edits.drop_last());
            assert(fwd_ok(pre.lines, e@));
            assert(edit_wf(e@));
        }
        let reg_end = block_end(&self.lines, e.at, &e.old_text);
        let new_lines = splice_vec(
            &self.lines,
            e.at.line,
            e.at.col,
            reg_end.line,
            reg_end.col,
            &e.new_text,
        );
        proof {
            lemma_extract_of_splice(
                pre.lines,
                e.at.line as int,
                e.at.col as int,
                reg_end.line as int,
                reg_end.col as int,
                e@.new_text,
            );
            lemma_splice_round_trip(
                pre.lines,
                e.at.line as int,
                e.at.col as int,
                reg_end.line as int,
                reg_end.col as int,
                e@.new_text,
            );
        }
        let ncur: Pos = block_end(&new_lines, e.at, &e.new_text);
        self.lines = new_lines;
        self.cursor = ncur;
        self.anchor = None;
        let ghost pre_undo = edit_views(self.undo_edits@);
        self.undo_edits.push(e);
        proof {
            assert(edit_views(self.undo_edits@) =~= pre_undo.push(pre.redo_edits.last()));
            assert(bwd_ok(self@.lines, pre.redo_edits.last()));
            assert(apply_bwd(self@.lines, pre.redo_edits.last()) == pre.lines);
            assert(redo_ok(self@.lines, self@.redo_edits));
            assert(self@.undo_edits.last() == pre.redo_edits.last());
            assert(self@.undo_edits.drop_last() =~= pre.undo_edits);
            assert(undo_ok(pre.lines, pre.undo_edits));
            assert(undo_ok(self@.lines, self@.undo_edits));
        }
        true
    }

    /// Inserts one character at the cursor; the cursor moves past it.
    pub fn insert_char(&mut self, c: char)
        requires
            old(self).wf(),
        ensures
            final(self).wf(),
            edited(
                old(self)@,
                final(self)@,
                old(self)@.cursor.line as int,
                old(self)@.cursor.col as int,
                old(self)@.cursor.line as int,
                old(self)@.cursor.col as int,
                seq![seq![c]],
            ),
    {
        let mut line: Vec<char> = Vec::new();
        line.push(c);
        let mut t: Vec<Vec<char>> = Vec::new();
        t.push(line);
        proof {
            assert(views_of(t@) =~~= seq![seq![c]]);
        }
        let cur = self.cursor;
        self.apply_replace(cur.line, cur.col, cur.line, cur.col, t);
    }

    /// Inserts a line break at the cursor, splitting the current line; the
    /// cursor moves to the start of the new line.
    pub fn insert_newline(&mut self)
        requires
            old(self).wf(),
        ensures
            final(self).wf(),
            edited(
                old(self)@,
                final(self)@,
                old(self)@.cursor.line as int,
                old(self)@.cursor.col as int,
                old(self)@.cursor.line as int,
                old(self)@.cursor.col as int,
                seq![Seq::<char>::empty(), Seq::<char>::empty()],
            ),
    {
        let mut t: Vec<Vec<char>> = Vec::new();
        t.push(Vec::new());
        t.push(Vec::new());
        proof {
            assert(views_of(t@) =~~= seq![Seq::<char>::empty(), Seq::<char>::empty()]);
        }
        let cur = self.cursor;
        self.apply_replace(cur.line, cur.col, cur.line, cur.col, t);
    }

    /// Inserts a run of characters (no line break) at the cursor; the cursor
    /// moves past it.
    pub fn insert_text(&mut self, s: Vec<char>)
        requires
            old(self).wf(),
        ensures
            final(self).wf(),
            edited(
                old(self)@,
                final(self)@,
                old(self)@.cursor.line as int,
                old(self)@.cursor.col as int,
                old(self)@.cursor.line as int,
                old(self)@.cursor.col as int,
                seq![s@],
            ),
    {
        let ghost sv = s@;
        let mut t: Vec<Vec<char>> = Vec::new();
        t.push(s);
        proof {
            assert(views_of(t@) =~~= seq![sv]);
        }
        let cur = self.cursor;
        self.apply_replace(cur.line, cur.col, cur.line, cur.col, t);
    }

    /// Deletes backward from the cursor: the character before it, or, at the
    /// head of a line, the line break joining it to the previous line. At the
    /// very start of the buffer nothing happens.
    pub fn backspace(&mut self)
        requires
            old(self).wf(),
        ensures
            final(self).wf(),
            old(self)@.cursor.col > 0 ==> edited(
                old(self)@,
                final(self)@,
                old(self)@.cursor.line as int,
                old(self)@.cursor.col - 1,
                old(self)@.cursor.line as int,
                old(self)@.cursor.col as int,
                seq![Seq::<char>::empty()],
            ),
            old(self)@.cursor.col == 0 && old(self)@.cursor.line > 0 ==> edited(
                old(self)@,
                final(self)@,
                old(self)@.cursor.line - 1,
                old(self)@.lines[old(self)@.cursor.line - 1].len() as int,
                old(self)@.cursor.line as int,
                0,
                seq![Seq::<char>::empty()],
            ),
            old(self)@.cursor.col == 0 && old(self)@.cursor.line == 0 ==> final(self)@ == old(
                self,
            )@,
    {
        let cur = self.cursor;
        if cur.col > 0 {
            let mut t: Vec<Vec<char>> = Vec::new();
            t.push(Vec::new());
            proof {
                assert(views_of(t@) =~~= seq![Seq::<char>::empty()]);
            }
            self.apply_replace(cur.line, cur.col - 1, cur.line, cur.col, t);
        } else if cur.line > 0 {
            let mut t: Vec<Vec<char>> = Vec::new();
            t.push(Vec::new());
            proof {
                assert(views_of(t@) =~~= seq![Seq::<char>::empty()]);
            }
            let prev_len = self.lines[cur.line - 1].len();
            self.apply_replace(cur.line - 1, prev_len, cur.line, 0, t);
        }
    }

    /// Starts a selection: the anchor is fixed at the cursor.
    pub fn start_selection(&mut self)
        requires
            old(self).wf(),
        ensures
            final(self).wf(),
            final(self)@ == (DocView { anchor: Some(old(self)@.cursor), ..old(self)@ }),
    {
        self.anchor = Some(self.cursor);
    }

    /// Drops the selection without touching the text.
    pub fn cancel_selection(&mut self)
        requires
            old(self).wf(),
        ensures
            final(self).wf(),
            final(self)@ == (DocView { anchor: None, ..old(self)@ }),
    {
        self.anchor = None;
    }

    /// Removes the selected span — between the anchor and the cursor, in
    /// document order — recording one undo entry, clearing the redo stack and
    /// the selection, and leaving the cursor where the span began. Without a
    /// selection nothing happens.
    pub fn cut_selection(&mut self) -> (r: bool)
        requires
            old(self).wf(),
        ensures
            final(self).wf(),
            old(self)@.anchor is None ==> !r && final(self)@ == old(self)@,
            old(self)@.anchor matches Some(a) ==> {
                let lo = if pos_le(a, old(self)@.cursor) {
                    a
                } else {
                    old(self)@.cursor
                };
                let hi = if pos_le(a, old(self)@.cursor) {
                    old(self)@.cursor
                } else {
                    a
                };
                r && edited(
                    old(self)@,
                    final(self)@,
                    lo.line as int,
                    lo.col as int,
                    hi.line as int,
                    hi.col as int,
                    seq![Seq::<char>::empty()],
                )
            },
    {
        match self.anchor {
            None => false,
            Some(a) => {
                let cur = self.cursor;
                let (lo, hi) = if pos_le_exec(a, cur) {
                    (a, cur)
                } else {
                    (cur, a)
                };
                let mut t: Vec<Vec<char>> = Vec::new();
                t.push(Vec::new());
                proof {
                    assert(views_of(t@) =~~= seq![Seq::<char>::empty()]);
                }
                self.apply_replace(lo.line, lo.col, hi.line, hi.col, t);
                true
            },
        }
    }

    /// Moves the cursor by one unit, clamped at the buffer's edges; the text,
    /// the selection anchor and the history are untouched. Hitting an edge is
    /// not an error. With an active selection, moving the cursor extends the
    /// selection's end, since the span runs from the fixed anchor to the
    /// cursor.
    pub fn move_cursor(&mut self, m: Move)
        requires
            old(self).wf(),
        ensures
            final(self).wf(),
            final(self)@.cursor.line as int == move_target(old(self)@.lines, old(self)@.cursor, m).0,
            final(self)@.cursor.col as int == move_target(old(self)@.lines, old(self)@.cursor, m).1,
            final(self)@.lines == old(self)@.lines,
            final(self)@.anchor == old(self)@.anchor,
            final(self)@.undo_edits == old(self)@.undo_edits,
            final(self)@.redo_edits == old(self)@.redo_edits,
    {
        let ghost pre = self@;
        let ghost goal = move_target(pre.lines, pre.cursor, m);
        proof {
            lemma_move_target_valid(pre.lines, pre.cursor, m);
        }
        let l = self.cursor.line;
        let c = self.cursor.col;
        let n = self.lines.len();
        let p: Pos = match m {
            Move::Left => {
                if c > 0 {
                    Pos { line: l, col: c - 1 }
                } else if l > 0 {
                    Pos { line: l - 1, col: self.lines[l - 1].len() }
                } else {
                    Pos { line: 0, col: 0 }
                }
            },
            Move::Right => {
                let len = self.lines[l].len();
                if c < len {
                    Pos { line: l, col: c + 1 }
                } else if l + 1 < n {
                    Pos { line: l + 1, col: 0 }
                } else {
                    Pos { line: l, col: c }
                }
            },
            Move::Up => {
                if l > 0 {
                    let len = self.lines[l - 1].len();
                    Pos { line: l - 1, col: if c <= len { c } else { len } }
                } else {
                    Pos { line: l, col: c }
                }
            },
            Move::Down => {
                if l + 1 < n {
                    let len = self.lines[l + 1].len();
                    Pos { line: l + 1, col: if c <= len { c } else { len } }
                } else {
                    Pos { line: l, col: c }
                }
            },
            Move::LineHead => Pos { line: l, col: 0 },
            Move::LineEnd => Pos { line: l, col: self.lines[l].len() },
            Move::WordForward => {
                let len = self.lines[l].len();
                if c < len {
                    let line = &self.lines[l];
                    let mut j: usize = c;
                    while j < line.len() && !(line[j] == ' ' || line[j] == '\t')
                        invariant
                            c <= j <= line@.len(),
                            scan_word(line@, c as int) == scan_word(line@, j as int),
                        decreases line@.len() - j,
                    {
                        j = j + 1;
                    }
                    proof {
                        assert(scan_word(line@, j as int) == j);
                    }
                    let mut k: usize = j;
                    while k < line.len() && (line[k] == ' ' || line[k] == '\t')
                        invariant
                            j <= k <= line@.len(),
                            scan_gap(line@, j as int) == scan_gap(line@, k as int),
                        decreases line@.len() - k,
                    {
                        k = k + 1;
                    }
                    proof {
                        assert(scan_gap(line@, k as int) == k);
                    }
                    Pos { line: l, col: k }
                } else if l + 1 < n {
                    Pos { line: l + 1, col: 0 }
                } else {
                    Pos { line: l, col: c }
                }
            },
            Move::WordBack => {
                if c > 0 {
                    let line = &self.lines[l];
                    let mut j: usize = c;
                    while j > 0 && (line[j - 1] == ' ' || line[j - 1] == '\t')
                        invariant
                            0 <= j <= c <= line@.len(),
                            scan_gap_back(line@, c as int) == scan_gap_back(line@, j as int),
                        decreases j,
                    {
                        j = j - 1;
                    }
                    proof {
                        assert(scan_gap_back(line@, j as int) == j);
                    }
                    let mut k: usize = j;
                    while k > 0 && !(line[k - 1] == ' ' || line[k - 1] == '\t')
                        invariant
                            0 <= k <= j <= line@.len(),
                            scan_word_back(line@, j as int) == scan_word_back(line@, k as int),
                        decreases k,
                    {
                        k = k - 1;
                    }
                    proof {
                        assert(scan_word_back(line@, k as int) == k);
                    }
                    Pos { line: l, col: k }
                } else if l > 0 {
                    Pos { line: l - 1, col: self.lines[l - 1].len() }
                } else {
                    Pos { line: 0, col: 0 }
                }
            },
            Move::ParaForward => {
                let mut q: usize = l + 1;
                while q < n && self.lines[q].len() != 0
                    invariant
                        l + 1 <= q <= n,
                        n == self@.lines.len(),
                        self@.lines == pre.lines,
                        next_break(pre.lines, l + 1) == next_break(pre.lines, q as int),
                    decreases n - q,
                {
                    q = q + 1;
                }
                let target = if q < n {
                    q
                } else {
                    n - 1
                };
                proof {
                    assert(next_break(pre.lines, q as int) == target);
                }
                Pos { line: target, col: 0 }
            },
            Move::ParaBack => {
                let mut q: usize = l;
                while q > 0 && self.lines[q - 1].len() != 0
                    invariant
                        0 <= q <= l,
                        l < self@.lines.len(),
                        self@.lines == pre.lines,
                        prev_break(pre.lines, l as int) == prev_break(pre.lines, q as int),
                    decreases q,
                {
                    q = q - 1;
                }
                let target = if q > 0 {
                    q - 1
                } else {
                    0
                };
                proof {
                    assert(prev_break(pre.lines, q as int) == target);
                }
                Pos { line: target, col: 0 }
            },
        };
        proof {
            assert((p.line as int, p.col as int) == goal);
        }
        self.cursor = p;
    }

    /// Moves the cursor to the first pattern match strictly after it. The
    /// search never wraps: with no match between the cursor and the end of
    /// the buffer the cursor stays exactly where it was and `false` comes
    /// back, to be reported as a "no match" status.
    pub fn search_forward(&mut self, p: &crate::search::CompiledPattern) -> (found: bool)
        requires
            old(self).wf(),
        ensures
            final(self).wf(),
            final(self)@.lines == old(self)@.lines,
            final(self)@.anchor == old(self)@.anchor,
            final(self)@.undo_edits == old(self)@.undo_edits,
            final(self)@.redo_edits == old(self)@.redo_edits,
            ({
                let r = crate::search::fwd_search(
                    p.pat(),
                    old(self)@.lines,
                    old(self)@.cursor.line as int,
                    old(self)@.cursor.col + 1,
                );
                match r {
                    Some(q) => found && final(self)@.cursor == q,
                    None => !found && final(self)@.cursor == old(self)@.cursor,
                }
            }),
    {
        let r = crate::search::find_forward(&self.lines, self.cursor, p);
        match r {
            Some(q) => {
                self.cursor = q;
                true
            },
            None => false,
        }
    }

    /// Moves the cursor to the last pattern match strictly before it. The
    /// search never wraps: with no match between the start of the buffer and
    /// the cursor the cursor stays exactly where it was and `false` comes
    /// back.
    pub fn search_backward(&mut self, p: &crate::search::CompiledPattern) -> (found: bool)
        requires
            old(self).wf(),
        ensures
            final(self).wf(),
            final(self)@.lines == old(self)@.lines,
            final(self)@.anchor == old(self)@.anchor,
            final(self)@.undo_edits == old(self)@.undo_edits,
            final(self)@.redo_edits == old(self)@.redo_edits,
            ({
                let r = crate::search::bwd_search(
                    p.pat(),
                    old(self)@.lines,
                    old(self)@.cursor.line as int,
                    old(self)@.cursor.col as int,
                );
                match r {
                    Some(q) => found && final(self)@.cursor == q,
                    None => !found && final(self)@.cursor == old(self)@.cursor,
                }
            }),
    {
        let r = crate::search::find_backward(&self.lines, self.cursor, p);
        match r {
            Some(q) => {
                self.cursor = q;
                true
            },
            None => false,
        }
    }

    /// The cursor position.
    pub fn cursor(&self) -> (p: Pos)
        ensures
            p == self@.cursor,
    {
        self.cursor
    }

    /// The selection anchor, when a selection is active.
    pub fn selection_anchor(&self) -> (a: Option<Pos>)
        ensures
            a == self@.anchor,
    {
        self.anchor
    }

    /// The number of lines.
    pub fn line_count(&self) -> (n: usize)
        ensures
            n == self@.lines.len(),
    {
        self.lines.len()
    }

    /// The number of entries on the undo stack.
    pub fn undo_len(&self) -> (n: usize)
        ensures
            n == self@.undo_edits.len(),
    {
        self.undo_edits.len()
    }

    /// The number of entries on the redo stack.
    pub fn redo_len(&self) -> (n: usize)
        ensures
            n == self@.redo_edits.len(),
    {
        self.redo_edits.len()
    }

    /// The whole content as one character sequence, lines joined by `'\n'`.
    pub fn content_chars(&self) -> (r: Vec<char>)
        ensures
            r@ == crate::text::join_lines(self@.lines),
    {
        crate::text::join_lines_vec(&self.lines)
    }

    /// The lines as strings, for display and storage.
    pub fn lines_strings(&self) -> (r: Vec<String>)
        ensures
            r@.len() == self@.lines.len(),
            forall|i: int| 0 <= i < r@.len() ==> r@[i]@ == self@.lines[i],
    {
        let mut r: Vec<String> = Vec::new();
        let mut i: usize = 0;
        let n = self.lines.len();
        while i < n
            invariant
                0 <= i <= n,
                n == self@.lines.len(),
                n == self.lines@.len(),
                r@.len() == i,
                forall|k: int| 0 <= k < i ==> r@[k]@ == self@.lines[k],
            decreases n - i,
        {
            let s = crate::text::string_of_chars(&self.lines[i]);
            r.push(s);
            i = i + 1;
        }
        r
    }
}

} // verus!
