//! Regions of a line-structured text and the splice operation that replaces
//! one region by a block of lines. Every buffer edit — typing a character,
//! splitting a line, deleting a span — is one splice, and undoing it is the
//! splice that puts the extracted block back. The two lemmas at the end state
//! that an edit and its inverse cancel exactly.
use vstd::prelude::*;

use crate::text::views_of;

verus! {

/// A cursor position: a line index and a character column within that line.
/// A column equal to the line length addresses the end of the line.
#[derive(Clone, Copy, PartialEq, Eq, Structural, Debug)]
pub struct Pos {
    pub line: usize,
    pub col: usize,
}

/// `p` addresses a place inside `lines` (a column at line length included).
pub open spec fn valid_pos(lines: Seq<Seq<char>>, p: Pos) -> bool {
    p.line < lines.len() && p.col <= lines[p.line as int].len()
}

/// Document order on positions.
pub open spec fn pos_le(a: Pos, b: Pos) -> bool {
    a.line < b.line || (a.line == b.line && a.col <= b.col)
}

/// The span from `(l0, c0)` up to but not including `(l1, c1)` lies inside
/// `lines` and is non-negative.
pub open spec fn valid_region(lines: Seq<Seq<char>>, l0: int, c0: int, l1: int, c1: int) -> bool {
    &&& 0 <= l0 <= l1 < lines.len()
    &&& 0 <= c0 <= lines[l0].len()
    &&& 0 <= c1 <= lines[l1].len()
    &&& (l0 < l1 || c0 <= c1)
}

/// A block of lines that can stand for a region's content: at least one line.
/// A single empty line is the empty block; a block of two empty lines is a
/// bare line break.
pub open spec fn wf_block(t: Seq<Seq<char>>) -> bool {
    t.len() >= 1
}

/// The line on which a block inserted at line `l0` ends.
pub open spec fn end_line(l0: int, t: Seq<Seq<char>>) -> int {
    l0 + t.len() - 1
}

/// The column at which a block inserted at column `c0` ends.
pub open spec fn end_col(c0: int, t: Seq<Seq<char>>) -> int {
    if t.len() == 1 {
        c0 + t[0].len()
    } else {
        t.last().len() as int
    }
}

/// `lines` with the region `(l0, c0)..(l1, c1)` replaced by the block `t`:
/// the text before the region start joins the block's first line, the text
/// after the region end joins its last.
pub open spec fn splice(
    lines: Seq<Seq<char>>,
    l0: int,
    c0: int,
    l1: int,
    c1: int,
    t: Seq<Seq<char>>,
) -> Seq<Seq<char>> {
    let mid0 = t.update(0, lines[l0].take(c0) + t[0]);
    let mid = mid0.update(mid0.len() - 1, mid0.last() + lines[l1].skip(c1));
    lines.take(l0) + mid + lines.skip(l1 + 1)
}

/// The block of lines the region `(l0, c0)..(l1, c1)` holds.
pub open spec fn extract(lines: Seq<Seq<char>>, l0: int, c0: int, l1: int, c1: int) -> Seq<
    Seq<char>,
> {
    if l0 == l1 {
        seq![lines[l0].subrange(c0, c1)]
    } else {
        seq![lines[l0].skip(c0)] + lines.subrange(l0 + 1, l1) + seq![lines[l1].take(c1)]
    }
}

/// An extracted block is well formed, and a splice never empties the text.
pub proof fn lemma_extract_wf(lines: Seq<Seq<char>>, l0: int, c0: int, l1: int, c1: int)
    requires
        valid_region(lines, l0, c0, l1, c1),
    ensures
        wf_block(extract(lines, l0, c0, l1, c1)),
        extract(lines, l0, c0, l1, c1).len() == l1 - l0 + 1,
{
}

/// After a splice, the spliced block sits exactly in the region that starts
/// where the old region started and ends where the block ends; the lines
/// before and after it are untouched.
pub proof fn lemma_extract_of_splice(
    lines: Seq<Seq<char>>,
    l0: int,
    c0: int,
    l1: int,
    c1: int,
    t: Seq<Seq<char>>,
)
    requires
        valid_region(lines, l0, c0, l1, c1),
        wf_block(t),
    ensures
        ({
            let out = splice(lines, l0, c0, l1, c1, t);
            let l2 = end_line(l0, t);
            let c2 = end_col(c0, t);
            &&& out.len() == lines.len() + t.len() - 1 - (l1 - l0)
            &&& valid_region(out, l0, c0, l2, c2)
            &&& extract(out, l0, c0, l2, c2) == t
            &&& forall|i: int| 0 <= i < l0 ==> out[i] == lines[i]
            &&& forall|i: int|
                l2 < i < out.len() ==> out[i] == lines[i + (l1 - l0) - (t.len() - 1)]
            &&& out[l0].take(c0) == lines[l0].take(c0)
            &&& out[l2].skip(c2) == lines[l1].skip(c1)
        }),
{
    let out = splice(lines, l0, c0, l1, c1, t);
    let l2 = end_line(l0, t);
    let c2 = end_col(c0, t);
    let mid0 = t.update(0, lines[l0].take(c0) + t[0]);
    let mid = mid0.update(mid0.len() - 1, mid0.last() + lines[l1].skip(c1));
    assert(out.len() == lines.len() + t.len() - 1 - (l1 - l0));
    assert(forall|k: int| 0 <= k < t.len() ==> out[l0 + k] == mid[k]);
    if t.len() == 1 {
        assert(out[l0] == lines[l0].take(c0) + t[0] + lines[l1].skip(c1));
        assert(out[l0].subrange(c0, c2) =~= t[0]);
        assert(extract(out, l0, c0, l2, c2) =~~= t);
        assert(out[l2].skip(c2) =~= lines[l1].skip(c1));
    } else {
        assert(out[l0] == lines[l0].take(c0) + t[0]);
        assert(out[l2] == t.last() + lines[l1].skip(c1));
        assert(out[l0].skip(c0) =~= t[0]);
        assert(out[l2].take(c2) =~= t.last());
        assert(out.subrange(l0 + 1, l2) =~= t.subrange(1, t.len() - 1));
        assert(extract(out, l0, c0, l2, c2) =~~= t);
        assert(out[l2].skip(c2) =~= lines[l1].skip(c1));
    }
    assert(out[l0].take(c0) =~= lines[l0].take(c0));
    assert(forall|i: int| 0 <= i < l0 ==> out[i] == lines[i]);
    assert forall|i: int| l2 < i < out.len() implies out[i] == lines[i + (l1 - l0) - (t.len()
        - 1)] by {
        assert(out[i] == lines.skip(l1 + 1)[i - l0 - t.len()]);
    }
}

/// Splicing a block in and then splicing the extracted block back over it
/// restores the original text exactly.
pub proof fn lemma_splice_round_trip(
    lines: Seq<Seq<char>>,
    l0: int,
    c0: int,
    l1: int,
    c1: int,
    t: Seq<Seq<char>>,
)
    requires
        valid_region(lines, l0, c0, l1, c1),
        wf_block(t),
    ensures
        ({
            let out = splice(lines, l0, c0, l1, c1, t);
            let l2 = end_line(l0, t);
            let c2 = end_col(c0, t);
            splice(out, l0, c0, l2, c2, extract(lines, l0, c0, l1, c1)) == lines
        }),
{
    let out = splice(lines, l0, c0, l1, c1, t);
    let l2 = end_line(l0, t);
    let c2 = end_col(c0, t);
    let x = extract(lines, l0, c0, l1, c1);
    let back = splice(out, l0, c0, l2, c2, x);
    lemma_extract_of_splice(lines, l0, c0, l1, c1, t);
    let mid0 = x.update(0, out[l0].take(c0) + x[0]);
    let mid = mid0.update(mid0.len() - 1, mid0.last() + out[l2].skip(c2));
    assert(back == out.take(l0) + mid + out.skip(l2 + 1));
    assert(out.take(l0) =~= lines.take(l0));
    assert(out.skip(l2 + 1) =~= lines.skip(l1 + 1));
    if l0 == l1 {
        assert(x[0] == lines[l0].subrange(c0, c1));
        assert(mid[0] =~= lines[l0]);
        assert(mid =~~= lines.subrange(l0, l1 + 1));
    } else {
        assert(x[0] == lines[l0].skip(c0));
        assert(x.last() == lines[l1].take(c1));
        assert(mid[0] =~= lines[l0]);
        assert(mid[x.len() - 1] =~= lines[l1]);
        assert forall|k: int| 0 < k < x.len() - 1 implies mid[k] == lines[l0 + k] by {
            assert(x[k] == lines.subrange(l0 + 1, l1)[k - 1]);
        }
        assert(mid =~~= lines.subrange(l0, l1 + 1));
    }
    assert(back =~~= lines);
}

/// Whether `a` comes no later than `b` in document order.
pub fn pos_le_exec(a: Pos, b: Pos) -> (r: bool)
    ensures
        r == pos_le(a, b),
{
    a.line < b.line || (a.line == b.line && a.col <= b.col)
}

/// Appends `src[from..to]` to `dst`.
pub fn push_range(dst: &mut Vec<char>, src: &Vec<char>, from: usize, to: usize)
    requires
        from <= to <= src@.len(),
    ensures
        final(dst)@ == old(dst)@ + src@.subrange(from as int, to as int),
{
    let mut k: usize = from;
    proof {
        assert(dst@ =~= dst@ + src@.subrange(from as int, from as int));
    }
    while k < to
        invariant
            from <= k <= to <= src@.len(),
            dst@ == old(dst)@ + src@.subrange(from as int, k as int),
        decreases to - k,
    {
        let c = src[k];
        dst.push(c);
        k = k + 1;
        proof {
            assert(dst@ =~= old(dst)@ + src@.subrange(from as int, k as int));
        }
    }
}

/// Appends the lines `src[from..to]` to `dst`, each copied.
pub fn push_lines(dst: &mut Vec<Vec<char>>, src: &Vec<Vec<char>>, from: usize, to: usize)
    requires
        from <= to <= src@.len(),
    ensures
        views_of(final(dst)@) == views_of(old(dst)@) + views_of(
            src@,
        ).subrange(from as int, to as int),
{
    let ghost base = views_of(dst@);
    let ghost sv = views_of(src@);
    let mut k: usize = from;
    proof {
        assert(views_of(dst@) =~= base + sv.subrange(from as int, from as int));
    }
    while k < to
        invariant
            from <= k <= to <= src@.len(),
            sv == views_of(src@),
            views_of(dst@) == base + sv.subrange(from as int, k as int),
        decreases to - k,
    {
        let mut line: Vec<char> = Vec::new();
        push_range(&mut line, &src[k], 0, src[k].len());
        proof {
            assert(line@ =~= src@[k as int]@);
        }
        let ghost prev = views_of(dst@);
        dst.push(line);
        k = k + 1;
        proof {
            assert(views_of(dst@) =~= prev.push(sv[k - 1]));
            assert(views_of(dst@) =~= base + sv.subrange(from as int, k as int));
        }
    }
}

/// Replaces the region `(l0, c0)..(l1, c1)` of `lines` by the block `t`,
/// returning the new text.
pub fn splice_vec(
    lines: &Vec<Vec<char>>,
    l0: usize,
    c0: usize,
    l1: usize,
    c1: usize,
    t: &Vec<Vec<char>>,
) -> (r: Vec<Vec<char>>)
    requires
        valid_region(
            views_of(lines@),
            l0 as int,
            c0 as int,
            l1 as int,
            c1 as int,
        ),
        wf_block(views_of(t@)),
    ensures
        views_of(r@) == splice(
            views_of(lines@),
            l0 as int,
            c0 as int,
            l1 as int,
            c1 as int,
            views_of(t@),
        ),
{
    let ghost lv = views_of(lines@);
    let ghost tv = views_of(t@);
    let mut r: Vec<Vec<char>> = Vec::new();
    push_lines(&mut r, lines, 0, l0);
    proof {
        assert(views_of(r@) =~= lv.take(l0 as int));
    }
    let mut first: Vec<char> = Vec::new();
    push_range(&mut first, &lines[l0], 0, c0);
    push_range(&mut first, &t[0], 0, t[0].len());
    proof {
        assert(tv[0].subrange(0, tv[0].len() as int) =~= tv[0]);
        assert(first@ =~= lv[l0 as int].take(c0 as int) + tv[0]);
    }
    if t.len() == 1 {
        push_range(&mut first, &lines[l1], c1, lines[l1].len());
        proof {
            assert(lv[l1 as int].subrange(c1 as int, lv[l1 as int].len() as int) =~= lv[l1 as int].skip(c1 as int));
        }
        let ghost prev = views_of(r@);
        r.push(first);
        proof {
            assert(views_of(r@) =~= prev.push(
                lv[l0 as int].take(c0 as int) + tv[0] + lv[l1 as int].skip(c1 as int),
            ));
        }
    } else {
        let ghost prev0 = views_of(r@);
        r.push(first);
        proof {
            assert(views_of(r@) =~= prev0.push(
                lv[l0 as int].take(c0 as int) + tv[0],
            ));
        }
        push_lines(&mut r, t, 1, t.len() - 1);
        let mut last: Vec<char> = Vec::new();
        push_range(&mut last, &t[t.len() - 1], 0, t[t.len() - 1].len());
        push_range(&mut last, &lines[l1], c1, lines[l1].len());
        proof {
            assert(tv.last().subrange(0, tv.last().len() as int) =~= tv.last());
            assert(lv[l1 as int].subrange(c1 as int, lv[l1 as int].len() as int) =~= lv[l1 as int].skip(c1 as int));
            assert(last@ =~= tv.last() + lv[l1 as int].skip(c1 as int));
        }
        let ghost prev1 = views_of(r@);
        r.push(last);
        proof {
            assert(views_of(r@) =~= prev1.push(
                tv.last() + lv[l1 as int].skip(c1 as int),
            ));
        }
    }
    let n = lines.len();
    push_lines(&mut r, lines, l1 + 1, n);
    proof {
        let rv = views_of(r@);
        let s = splice(lv, l0 as int, c0 as int, l1 as int, c1 as int, tv);
        let mid0 = tv.update(0, lv[l0 as int].take(c0 as int) + tv[0]);
        let mid = mid0.update(mid0.len() - 1, mid0.last() + lv[l1 as int].skip(c1 as int));
        assert(lv.subrange(l1 + 1, lv.len() as int) =~= lv.skip(l1 + 1));
        assert(rv.len() == s.len());
        assert forall|ii: int| 0 <= ii < rv.len() implies rv[ii] == s[ii] by {
            if ii < l0 {
            } else if ii < l0 + tv.len() {
                assert(s[ii] == mid[ii - l0]);
                if tv.len() > 1 && 0 < ii - l0 < tv.len() - 1 {
                    assert(rv[ii] == tv.subrange(1, tv.len() - 1)[ii - l0 - 1]);
                }
            } else {
                assert(s[ii] == lv.skip(l1 + 1)[ii - l0 - tv.len()]);
            }
        }
        assert(rv =~= s);
    }
    r
}

/// Copies the block of lines the region `(l0, c0)..(l1, c1)` holds.
pub fn extract_vec(lines: &Vec<Vec<char>>, l0: usize, c0: usize, l1: usize, c1: usize) -> (r:
    Vec<Vec<char>>)
    requires
        valid_region(
            views_of(lines@),
            l0 as int,
            c0 as int,
            l1 as int,
            c1 as int,
        ),
    ensures
        views_of(r@) == extract(
            views_of(lines@),
            l0 as int,
            c0 as int,
            l1 as int,
            c1 as int,
        ),
{
    let ghost lv = views_of(lines@);
    let mut r: Vec<Vec<char>> = Vec::new();
    if l0 == l1 {
        let mut line: Vec<char> = Vec::new();
        push_range(&mut line, &lines[l0], c0, c1);
        r.push(line);
        proof {
            assert(views_of(r@) =~~= extract(
                lv,
                l0 as int,
                c0 as int,
                l1 as int,
                c1 as int,
            ));
        }
    } else {
        let mut line: Vec<char> = Vec::new();
        push_range(&mut line, &lines[l0], c0, lines[l0].len());
        let ghost prev0 = views_of(r@);
        r.push(line);
        proof {
            assert(lv[l0 as int].subrange(c0 as int, lv[l0 as int].len() as int) =~= lv[l0 as int].skip(c0 as int));
            assert(views_of(r@) =~= prev0.push(lv[l0 as int].skip(c0 as int)));
        }
        push_lines(&mut r, lines, l0 + 1, l1);
        let mut last: Vec<char> = Vec::new();
        push_range(&mut last, &lines[l1], 0, c1);
        let ghost prev1 = views_of(r@);
        r.push(last);
        proof {
            assert(lv[l1 as int].subrange(0, c1 as int) =~= lv[l1 as int].take(c1 as int));
            assert(views_of(r@) =~= prev1.push(lv[l1 as int].take(c1 as int)));
            assert(views_of(r@) =~= extract(
                lv,
                l0 as int,
                c0 as int,
                l1 as int,
                c1 as int,
            ));
        }
    }
    r
}

} // verus!
