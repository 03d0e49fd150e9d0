//! Pattern search over the buffer. Compilation and single-match lookup are
//! delegated to the `regex` crate behind trusted wrappers; everything around
//! them — walking the lines, keeping to one side of the cursor, never
//! wrapping past the buffer ends — is verified.
use vstd::prelude::*;

use crate::region::{valid_pos, Pos};
use crate::text::{string_of_chars, views_of};

verus! {

#[verifier::external_type_specification]
#[verifier::external_body]
pub struct ExRegex(regex::Regex);

/// Whether regex compilation accepts a pattern text; compilation succeeds or
/// fails on the pattern text alone.
pub uninterp spec fn pattern_compiles(pat: Seq<char>) -> bool;

/// The first match of a compiled pattern in a haystack, as character offsets
/// `(start, end)`, or nothing: a function of the pattern text and the
/// haystack text alone.
pub uninterp spec fn find_in(pat: Seq<char>, hay: Seq<char>) -> Option<(usize, usize)>;

/// A compiled search pattern, kept together with the text it was compiled
/// from; only `compile` constructs one, so the two always agree.
pub struct CompiledPattern {
    re: regex::Regex,
    src: String,
}

/// Relies on `regex::Regex::new`: an invalid pattern is refused, a valid one
/// yields a matcher, and which of the two happens depends on the pattern text
/// alone.
#[verifier::external_body]
fn regex_compile(pat: &str) -> (r: Option<regex::Regex>)
    ensures
        r is Some <==> pattern_compiles(pat@),
{
    regex::Regex::new(pat).ok()
}

/// Relies on `regex::Regex::find`: the first match of the pattern in the
/// haystack, a function of the two texts alone. Its byte offsets are
/// converted here to character offsets, so the documented guarantee
/// `start <= end <= haystack length` carries over to character counts.
#[verifier::external_body]
fn regex_find(p: &CompiledPattern, hay: &str) -> (r: Option<(usize, usize)>)
    ensures
        r == find_in(p.pat(), hay@),
        r matches Some((s, e)) ==> s <= e <= hay@.len(),
{
    p.re.find(hay).map(
        |m| (hay[..m.start()].chars().count(), hay[..m.end()].chars().count()),
    )
}

impl CompiledPattern {
    /// The pattern text this matcher was compiled from.
    pub closed spec fn pat(&self) -> Seq<char> {
        self.src@
    }

    /// Compiles a pattern; a malformed one is reported, not a failure of the
    /// editor.
    pub fn compile(pat: &str) -> (r: Option<CompiledPattern>)
        ensures
            r is Some <==> pattern_compiles(pat@),
            r matches Some(p) ==> p.pat() == pat@,
    {
        match regex_compile(pat) {
            Some(re) => Some(CompiledPattern { re, src: pat.to_owned() }),
            None => None,
        }
    }
}

/// The first match of `pat` in `line` at or after column `from`, in absolute
/// columns.
pub open spec fn line_find(pat: Seq<char>, line: Seq<char>, from: int) -> Option<(int, int)> {
    if 0 <= from <= line.len() {
        match find_in(pat, line.skip(from)) {
            Some((s, e)) => Some((from + s, from + e)),
            None => None,
        }
    } else {
        None
    }
}

/// The first match at or after `(l, from)`, walking forward line by line and
/// never past the last line.
pub open spec fn fwd_search(pat: Seq<char>, lines: Seq<Seq<char>>, l: int, from: int) -> Option<
    Pos,
>
    decreases lines.len() - l,
{
    if l < 0 || l >= lines.len() {
        None
    } else {
        match line_find(pat, lines[l], from) {
            Some((s, e)) => Some(Pos { line: l as usize, col: s as usize }),
            None => fwd_search(pat, lines, l + 1, 0),
        }
    }
}

/// The last match of `pat` in `line` among the scan that takes, at each step,
/// the first match of the suffix and moves one past its start, restricted to
/// matches starting strictly before `limit`.
pub open spec fn last_match_before(pat: Seq<char>, line: Seq<char>, from: int, limit: int) -> Option<
    (int, int),
>
    decreases line.len() + 1 - from,
{
    if from < 0 || from > line.len() {
        None
    } else {
        match find_in(pat, line.skip(from)) {
            None => None,
            Some((s, e)) => {
                if from + s >= limit {
                    None
                } else {
                    let next = if from + s + 1 > line.len() + 1 {
                        line.len() as int + 1
                    } else {
                        from + s + 1
                    };
                    match last_match_before(pat, line, next, limit) {
                        Some(m) => Some(m),
                        None => Some((from + s, from + e)),
                    }
                }
            },
        }
    }
}

/// The last match strictly before `(l, limit)`, walking backward line by
/// line and never past the first line.
pub open spec fn bwd_search(pat: Seq<char>, lines: Seq<Seq<char>>, l: int, limit: int) -> Option<
    Pos,
>
    decreases l + 1,
{
    if l < 0 || l >= lines.len() {
        None
    } else {
        match last_match_before(pat, lines[l], 0, limit) {
            Some((s, e)) => Some(Pos { line: l as usize, col: s as usize }),
            None => {
                if l == 0 {
                    None
                } else {
                    bwd_search(pat, lines, l - 1, lines[l - 1].len() as int + 1)
                }
            },
        }
    }
}

/// The start of a possible match.
pub open spec fn start_of(o: Option<(int, int)>) -> Option<int> {
    match o {
        Some(m) => Some(m.0),
        None => None,
    }
}

/// The start of a possible best candidate held as a machine integer.
pub open spec fn start_of_best(b: Option<usize>) -> Option<int> {
    match b {
        Some(s) => Some(s as int),
        None => None,
    }
}

/// The start column of the last match of `p` in `line` that begins strictly
/// before `limit` — anywhere in the line when `bounded` is false.
fn line_last_match(line: &Vec<char>, p: &CompiledPattern, limit: usize, bounded: bool) -> (r:
    Option<usize>)
    requires
        bounded ==> limit <= line@.len(),
    ensures
        ({
            let lim: int = if bounded {
                limit as int
            } else {
                line@.len() as int + 1
            };
            match r {
                Some(s) => last_match_before(p.pat(), line@, 0, lim) matches Some(m) && m.0
                    == s && s <= line@.len(),
                None => last_match_before(p.pat(), line@, 0, lim) is None,
            }
        }),
{
    let ghost lim: int = if bounded {
        limit as int
    } else {
        line@.len() as int + 1
    };
    let s_str = string_of_chars(line);
    let n = line.len();
    let mut from: usize = 0;
    let mut best: Option<usize> = None;
    let mut done = false;
    while !done
        invariant
            0 <= from <= n,
            n == line@.len(),
            s_str@ == line@,
            bounded ==> limit <= n && lim == limit as int,
            !bounded ==> lim == n as int + 1,
            match best {
                Some(b) => b < lim && b <= n,
                None => true,
            },
            start_of(last_match_before(p.pat(), line@, 0, lim)) == (match start_of(
                last_match_before(p.pat(), line@, from as int, lim),
            ) {
                Some(s) => Some(s),
                None => start_of_best(best),
            }),
            done ==> start_of(last_match_before(p.pat(), line@, 0, lim)) == start_of_best(best),
        decreases n - from, (if done { 0int } else { 1int }),
    {
        let suf = s_str.as_str().substring_char(from, n);
        proof {
            assert(line@.subrange(from as int, n as int) =~= line@.skip(from as int));
            assert(suf@ == line@.skip(from as int));
        }
        let m = regex_find(p, suf);
        match m {
            None => {
                proof {
                    assert(last_match_before(p.pat(), line@, from as int, lim) is None);
                }
                done = true;
            },
            Some((s, e)) => {
                proof {
                    assert(s <= e <= n - from);
                }
                if bounded && from + s >= limit {
                    proof {
                        assert(last_match_before(p.pat(), line@, from as int, lim) is None);
                    }
                    done = true;
                } else {
                    proof {
                        assert(from + s < lim);
                    }
                    let hit = from + s;
                    best = Some(hit);
                    let ghost old_from = from as int;
                    if hit >= n {
                        proof {
                            let nxt = old_from + s + 1;
                            assert(nxt == n + 1);
                            assert(last_match_before(p.pat(), line@, nxt, lim) is None);
                            assert(start_of(last_match_before(p.pat(), line@, old_from, lim))
                                == Some(hit as int));
                        }
                        done = true;
                    } else {
                        from = hit + 1;
                        proof {
                            assert(last_match_before(p.pat(), line@, old_from, lim) == (
                            match last_match_before(p.pat(), line@, from as int, lim) {
                                Some(mm) => Some(mm),
                                None => Some(((old_from + s), (old_from + e))),
                            }));
                        }
                    }
                }
            },
        }
    }
    best
}

/// The first match strictly after the cursor, walking forward and never
/// wrapping past the end of the buffer.
pub fn find_forward(lines: &Vec<Vec<char>>, cur: Pos, p: &CompiledPattern) -> (r: Option<Pos>)
    requires
        views_of(lines@).len() >= 1,
        valid_pos(views_of(lines@), cur),
    ensures
        r == fwd_search(p.pat(), views_of(lines@), cur.line as int, cur.col + 1),
        r matches Some(q) ==> valid_pos(views_of(lines@), q),
{
    let ghost lv = views_of(lines@);
    let n = lines.len();
    let len0 = lines[cur.line].len();
    if cur.col < len0 {
        let s0 = string_of_chars(&lines[cur.line]);
        let suf = s0.as_str().substring_char(cur.col + 1, len0);
        proof {
            assert(lv[cur.line as int].subrange(cur.col + 1, len0 as int) =~= lv[
                cur.line as int
            ].skip(cur.col + 1));
            assert(suf@ == lv[cur.line as int].skip(cur.col + 1));
        }
        match regex_find(p, suf) {
            Some((s, e)) => {
                proof {
                    assert(s <= len0 - (cur.col + 1));
                    assert(line_find(p.pat(), lv[cur.line as int], cur.col + 1) == Some((
                        (cur.col + 1 + s),
                        (cur.col + 1 + e),
                    )));
                }
                return Some(Pos { line: cur.line, col: cur.col + 1 + s });
            },
            None => {
                proof {
                    assert(line_find(p.pat(), lv[cur.line as int], cur.col + 1) is None);
                }
            },
        }
    } else {
        proof {
            assert(line_find(p.pat(), lv[cur.line as int], cur.col + 1) is None);
        }
    }
    let mut l = cur.line + 1;
    while l < n
        invariant
            cur.line < l <= n,
            n == lv.len(),
            lv == views_of(lines@),
            fwd_search(p.pat(), lv, cur.line as int, cur.col + 1) == fwd_search(
                p.pat(),
                lv,
                l as int,
                0,
            ),
        decreases n - l,
    {
        let s = string_of_chars(&lines[l]);
        proof {
            assert(lv[l as int].skip(0) =~= lv[l as int]);
            assert(lv[l as int].skip(0) == lv[l as int]);
        }
        match regex_find(p, s.as_str()) {
            Some((st, e)) => {
                proof {
                    assert(st <= lv[l as int].len());
                    assert(line_find(p.pat(), lv[l as int], 0) == Some((st as int, e as int)));
                }
                return Some(Pos { line: l, col: st });
            },
            None => {
                proof {
                    assert(line_find(p.pat(), lv[l as int], 0) is None);
                }
                l = l + 1;
            },
        }
    }
    None
}

/// The last match strictly before the cursor, walking backward and never
/// wrapping past the start of the buffer.
pub fn find_backward(lines: &Vec<Vec<char>>, cur: Pos, p: &CompiledPattern) -> (r: Option<Pos>)
    requires
        views_of(lines@).len() >= 1,
        valid_pos(views_of(lines@), cur),
    ensures
        r == bwd_search(p.pat(), views_of(lines@), cur.line as int, cur.col as int),
        r matches Some(q) ==> valid_pos(views_of(lines@), q),
{
    let ghost lv = views_of(lines@);
    match line_last_match(&lines[cur.line], p, cur.col, true) {
        Some(s) => {
            return Some(Pos { line: cur.line, col: s });
        },
        None => {
        },
    }
    let mut l = cur.line;
    while l > 0
        invariant
            0 <= l <= cur.line < lv.len(),
            lv == views_of(lines@),
            bwd_search(p.pat(), lv, cur.line as int, cur.col as int) == (if l == 0 {
                None
            } else {
                bwd_search(p.pat(), lv, l - 1, lv[l - 1].len() as int + 1)
            }),
        decreases l,
    {
        let ll = l - 1;
        match line_last_match(&lines[ll], p, 0, false) {
            Some(s) => {
                return Some(Pos { line: ll, col: s });
            },
            None => {
                l = ll;
            },
        }
    }
    None
}

} // verus!
