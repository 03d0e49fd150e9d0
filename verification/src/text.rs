//! Plain-text helpers shared by the buffer and the page navigator: splitting
//! file content into lines, joining lines back, and moving between `String`
//! and character vectors.
use vstd::prelude::*;

verus! {

/// The index of the first `'\n'` in `s`, or `s.len()` when there is none.
pub open spec fn first_newline(s: Seq<char>) -> int
    decreases s.len(),
{
    if s.len() == 0 {
        0
    } else if s[0] == '\n' {
        0
    } else {
        1 + first_newline(s.skip(1))
    }
}

pub proof fn lemma_first_newline(s: Seq<char>)
    ensures
        0 <= first_newline(s) <= s.len(),
        forall|i: int| 0 <= i < first_newline(s) ==> s[i] != '\n',
        first_newline(s) < s.len() ==> s[first_newline(s)] == '\n',
    decreases s.len(),
{
    if s.len() == 0 {
    } else if s[0] == '\n' {
    } else {
        lemma_first_newline(s.skip(1));
        assert forall|i: int| 0 <= i < first_newline(s) implies s[i] != '\n' by {
            if i > 0 {
                assert(s.skip(1)[i - 1] == s[i]);
            }
        }
        if first_newline(s) < s.len() {
            assert(s.skip(1)[first_newline(s) - 1] == s[first_newline(s)]);
        }
    }
}

/// `first_newline` is pinned down by the scan that found it.
pub proof fn lemma_first_newline_is(s: Seq<char>, k: int)
    requires
        0 <= k <= s.len(),
        forall|i: int| 0 <= i < k ==> s[i] != '\n',
        k < s.len() ==> s[k] == '\n',
    ensures
        first_newline(s) == k,
    decreases s.len(),
{
    if s.len() == 0 {
    } else if s[0] == '\n' {
    } else {
        assert forall|i: int| 0 <= i < k - 1 implies s.skip(1)[i] != '\n' by {
            assert(s.skip(1)[i] == s[i + 1]);
        }
        if k < s.len() {
            assert(s.skip(1)[k - 1] == s[k]);
        }
        lemma_first_newline_is(s.skip(1), k - 1);
    }
}

/// The line sequence of a text: maximal `'\n'`-free runs, with each separator
/// consumed, in the manner of a buffered line reader. The empty text has no
/// lines, and a final `'\n'` does not open an empty last line.
pub open spec fn split_lines(s: Seq<char>) -> Seq<Seq<char>>
    decreases s.len(),
    via split_lines_decreases
{
    if s.len() == 0 {
        Seq::empty()
    } else {
        let i = first_newline(s);
        if i == s.len() {
            seq![s]
        } else {
            seq![s.take(i)] + split_lines(s.skip(i + 1))
        }
    }
}

#[via_fn]
proof fn split_lines_decreases(s: Seq<char>) {
    lemma_first_newline(s);
}

/// Lines joined with a single `'\n'` between each pair, none at the end.
pub open spec fn join_lines(ls: Seq<Seq<char>>) -> Seq<char>
    decreases ls.len(),
{
    if ls.len() == 0 {
        Seq::empty()
    } else if ls.len() == 1 {
        ls[0]
    } else {
        ls[0] + seq!['\n'] + join_lines(ls.skip(1))
    }
}

/// A text with at most one trailing line break removed.
pub open spec fn strip_trailing_newline(s: Seq<char>) -> Seq<char> {
    if s.len() > 0 && s[s.len() - 1] == '\n' {
        s.take(s.len() - 1)
    } else {
        s
    }
}

/// The buffer content a page's raw text yields: its lines, or one empty line
/// when the text is empty, so that a buffer always holds at least one line.
pub open spec fn lines_of_content(s: Seq<char>) -> Seq<Seq<char>> {
    if s.len() == 0 {
        seq![Seq::empty()]
    } else {
        split_lines(s)
    }
}

pub proof fn lemma_split_lines_nonempty(s: Seq<char>)
    requires
        s.len() > 0,
    ensures
        split_lines(s).len() >= 1,
{
}

pub proof fn lemma_join_push(ls: Seq<Seq<char>>, x: Seq<char>)
    ensures
        join_lines(ls.push(x)) == if ls.len() == 0 {
            x
        } else {
            join_lines(ls) + seq!['\n'] + x
        },
    decreases ls.len(),
{
    if ls.len() == 0 {
        assert(ls.push(x)[0] == x);
        assert(join_lines(ls.push(x)) == x);
    } else {
        assert(ls.push(x).skip(1) =~= ls.skip(1).push(x));
        lemma_join_push(ls.skip(1), x);
        if ls.len() == 1 {
            assert(join_lines(ls.push(x)) == ls[0] + seq!['\n'] + x);
            assert(join_lines(ls) == ls[0]);
        } else {
            assert(join_lines(ls.push(x)) == ls[0] + seq!['\n'] + join_lines(ls.skip(1).push(x)));
            assert(join_lines(ls.skip(1).push(x)) == join_lines(ls.skip(1)) + seq!['\n'] + x);
            assert(ls[0] + seq!['\n'] + (join_lines(ls.skip(1)) + seq!['\n'] + x) =~= (ls[0]
                + seq!['\n'] + join_lines(ls.skip(1))) + seq!['\n'] + x);
        }
    }
}

/// Splitting a text into lines and joining them again loses exactly one
/// trailing line break, when there is one, and nothing else.
pub proof fn lemma_join_split(s: Seq<char>)
    ensures
        join_lines(split_lines(s)) == strip_trailing_newline(s),
    decreases s.len(),
{
    lemma_first_newline(s);
    if s.len() == 0 {
    } else {
        let i = first_newline(s);
        if i == s.len() {
            assert(join_lines(split_lines(s)) == s);
            assert(s[s.len() - 1] != '\n');
        } else {
            let rest = s.skip(i + 1);
            lemma_join_split(rest);
            if rest.len() == 0 {
                // the '\n' was the last character
                assert(split_lines(s) =~= seq![s.take(i)]);
                assert(join_lines(split_lines(s)) == s.take(i));
                assert(s[s.len() - 1] == '\n');
                assert(s.take(i) =~= s.take(s.len() - 1));
            } else {
                lemma_split_lines_nonempty(rest);
                let tail_lines = split_lines(rest);
                assert(split_lines(s) == seq![s.take(i)] + tail_lines);
                lemma_join_head(s.take(i), tail_lines);
                assert(join_lines(split_lines(s)) == s.take(i) + seq!['\n'] + join_lines(
                    tail_lines,
                ));
                assert(join_lines(tail_lines) == strip_trailing_newline(rest));
                assert(s[s.len() - 1] == rest[rest.len() - 1]);
                if s[s.len() - 1] == '\n' {
                    assert(s.take(i) + seq!['\n'] + rest.take(rest.len() - 1) =~= s.take(
                        s.len() - 1,
                    ));
                } else {
                    assert(s.take(i) + seq!['\n'] + rest =~= s);
                }
            }
        }
    }
}

/// Joining a head line onto further lines inserts exactly one separator.
pub proof fn lemma_join_head(x: Seq<char>, ls: Seq<Seq<char>>)
    requires
        ls.len() >= 1,
    ensures
        join_lines(seq![x] + ls) == x + seq!['\n'] + join_lines(ls),
{
    let all = seq![x] + ls;
    assert(all[0] == x);
    assert(all.skip(1) =~= ls);
}

/// The per-line character sequences of a vector of lines.
pub open spec fn views_of(ls: Seq<Vec<char>>) -> Seq<Seq<char>> {
    ls.map_values(|l: Vec<char>| l@)
}

/// The characters of a string, in order.
pub fn chars_of_str(s: &str) -> (v: Vec<char>)
    ensures
        v@ == s@,
{
    let n = s.unicode_len();
    let mut v: Vec<char> = Vec::new();
    let mut i: usize = 0;
    proof {
        assert(v@ =~= s@.take(0));
    }
    while i < n
        invariant
            n == s@.len(),
            0 <= i <= n,
            v@ == s@.take(i as int),
        decreases n - i,
    {
        let c = s.get_char(i);
        v.push(c);
        i = i + 1;
        proof {
            assert(v@ =~= s@.take(i as int));
        }
    }
    proof {
        assert(v@ =~= s@);
    }
    v
}

/// Relies on `String: FromIterator<char>`: collecting characters in order
/// builds the string whose character sequence is exactly the input.
#[verifier::external_body]
pub fn string_of_chars(v: &Vec<char>) -> (s: String)
    ensures
        s@ == v@,
{
    v.iter().collect()
}

/// The lines of a text, as `split_lines` describes them.
pub fn split_into_lines(s: &Vec<char>) -> (r: Vec<Vec<char>>)
    ensures
        views_of(r@) == split_lines(s@),
{
    let mut out: Vec<Vec<char>> = Vec::new();
    let mut p: usize = 0;
    proof {
        assert(s@.skip(0) =~= s@);
        assert(views_of(out@) + split_lines(s@) =~= split_lines(s@));
    }
    while p < s.len()
        invariant
            0 <= p <= s@.len(),
            split_lines(s@) == views_of(out@) + split_lines(s@.skip(p as int)),
        decreases s@.len() - p,
    {
        // scan to the next newline
        let mut j: usize = p;
        while j < s.len() && s[j] != '\n'
            invariant
                p <= j <= s@.len(),
                forall|i: int| p <= i < j ==> s@[i] != '\n',
            decreases s@.len() - j,
        {
            j = j + 1;
        }
        proof {
            let suf = s@.skip(p as int);
            assert forall|i: int| 0 <= i < j - p implies suf[i] != '\n' by {
                assert(suf[i] == s@[p + i]);
            }
            if j < s@.len() {
                assert(suf[j - p] == s@[j as int]);
            }
            lemma_first_newline_is(suf, j - p);
        }
        // copy the line s[p..j]
        let mut line: Vec<char> = Vec::new();
        let mut k: usize = p;
        proof {
            assert(line@ =~= s@.subrange(p as int, p as int));
        }
        while k < j
            invariant
                p <= k <= j <= s@.len(),
                line@ == s@.subrange(p as int, k as int),
            decreases j - k,
        {
            line.push(s[k]);
            k = k + 1;
            proof {
                assert(line@ =~= s@.subrange(p as int, k as int));
            }
        }
        let ghost old_out = views_of(out@);
        let ghost suf = s@.skip(p as int);
        out.push(line);
        proof {
            assert(views_of(out@) =~= old_out.push(line@));
        }
        if j == s.len() {
            proof {
                assert(suf.take(first_newline(suf)) =~= suf);
                assert(first_newline(suf) == suf.len());
                assert(split_lines(suf) == seq![suf]);
                assert(line@ =~= suf);
                assert(views_of(out@) =~= old_out + seq![suf]);
                assert(s@.skip(s@.len() as int) =~= Seq::<char>::empty());
                assert(split_lines(s@.skip(s@.len() as int)) =~= Seq::<Seq<char>>::empty());
                assert(views_of(out@) + split_lines(s@.skip(s@.len() as int)) =~= old_out + seq![
                    suf,
                ]);
            }
            p = s.len();
        } else {
            proof {
                let i = first_newline(suf);
                assert(i == j - p && i < suf.len());
                assert(split_lines(suf) == seq![suf.take(i)] + split_lines(suf.skip(i + 1)));
                assert(suf.take(i) =~= s@.subrange(p as int, j as int));
                assert(line@ == suf.take(i));
                assert(suf.skip(i + 1) =~= s@.skip(j + 1));
                assert(views_of(out@) + split_lines(s@.skip(j + 1)) =~= old_out + split_lines(
                    suf,
                ));
            }
            p = j + 1;
        }
    }
    proof {
        assert(s@.skip(p as int) =~= Seq::<char>::empty());
        assert(views_of(out@) + split_lines(s@.skip(p as int)) =~= views_of(out@));
    }
    out
}

/// The buffer lines a page's raw text yields: its lines, or one empty line
/// when the text is empty.
pub fn content_to_lines(s: &Vec<char>) -> (r: Vec<Vec<char>>)
    ensures
        views_of(r@) == lines_of_content(s@),
        r@.len() >= 1,
{
    let mut r = split_into_lines(s);
    if r.len() == 0 {
        proof {
            if s@.len() > 0 {
                lemma_split_lines_nonempty(s@);
                assert(false);
            }
        }
        r.push(Vec::new());
        proof {
            assert(views_of(r@) =~~= seq![Seq::<char>::empty()]);
        }
    } else {
        proof {
            if s@.len() == 0 {
                assert(views_of(r@).len() == 0);
                assert(false);
            }
        }
    }
    r
}

/// The text the given lines denote, joined with single separators.
pub fn join_lines_vec(ls: &Vec<Vec<char>>) -> (r: Vec<char>)
    ensures
        r@ == join_lines(views_of(ls@)),
{
    let mut r: Vec<char> = Vec::new();
    let mut i: usize = 0;
    while i < ls.len()
        invariant
            0 <= i <= ls@.len(),
            views_of(ls@).len() == ls@.len(),
            r@ == join_lines(views_of(ls@).take(i as int)),
        decreases ls@.len() - i,
    {
        if i > 0 {
            r.push('\n');
        }
        let mut k: usize = 0;
        let ghost mid = r@;
        proof {
            assert(r@ =~= mid + ls@[i as int]@.subrange(0, 0));
        }
        while k < ls[i].len()
            invariant
                0 <= k <= ls@[i as int]@.len(),
                i < ls@.len(),
                r@ == mid + ls@[i as int]@.subrange(0, k as int),
            decreases ls@[i as int]@.len() - k,
        {
            let c = ls[i][k];
            r.push(c);
            k = k + 1;
            proof {
                assert(r@ =~= mid + ls@[i as int]@.subrange(0, k as int));
            }
        }
        proof {
            let dv = views_of(ls@);
            assert(dv[i as int] == ls@[i as int]@);
            assert(ls@[i as int]@.subrange(0, ls@[i as int]@.len() as int) =~= dv[i as int]);
            assert(dv.take(i + 1) =~= dv.take(i as int).push(dv[i as int]));
            lemma_join_push(dv.take(i as int), dv[i as int]);
            if i == 0 {
                assert(r@ =~= dv[0]);
                assert(join_lines(dv.take(1)) == dv[0]);
            } else {
                assert(mid =~= join_lines(dv.take(i as int)) + seq!['\n']);
                assert(r@ =~= join_lines(dv.take(i as int)) + seq!['\n'] + dv[i as int]);
            }
        }
        i = i + 1;
    }
    proof {
        assert(views_of(ls@).take(ls@.len() as int) =~= views_of(ls@));
    }
    r
}

} // verus!
