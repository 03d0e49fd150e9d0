//! The reflow transform: every maximal run of three or more horizontal
//! whitespace characters becomes a single line break. It repairs text whose
//! line breaks were flattened into wide gaps, and it is proved idempotent:
//! a second pass changes nothing.
use vstd::prelude::*;

use crate::document::is_blank;
use crate::region::push_range;

verus! {

/// The length of the leading run of horizontal whitespace.
pub open spec fn run_len(s: Seq<char>) -> int
    decreases s.len(),
{
    if s.len() == 0 {
        0
    } else if !is_blank(s[0]) {
        0
    } else {
        1 + run_len(s.skip(1))
    }
}

pub proof fn lemma_run_len(s: Seq<char>)
    ensures
        0 <= run_len(s) <= s.len(),
        forall|i: int| 0 <= i < run_len(s) ==> is_blank(s[i]),
        run_len(s) < s.len() ==> !is_blank(s[run_len(s)]),
    decreases s.len(),
{
    if s.len() == 0 || !is_blank(s[0]) {
    } else {
        lemma_run_len(s.skip(1));
        assert forall|i: int| 0 <= i < run_len(s) implies is_blank(s[i]) by {
            if i > 0 {
                assert(s.skip(1)[i - 1] == s[i]);
            }
        }
        if run_len(s) < s.len() {
            assert(s.skip(1)[run_len(s) - 1] == s[run_len(s)]);
        }
    }
}

/// `run_len` is pinned down by the scan that found it.
pub proof fn lemma_run_len_is(s: Seq<char>, k: int)
    requires
        0 <= k <= s.len(),
        forall|i: int| 0 <= i < k ==> is_blank(s[i]),
        k < s.len() ==> !is_blank(s[k]),
    ensures
        run_len(s) == k,
    decreases s.len(),
{
    if s.len() == 0 || !is_blank(s[0]) {
    } else {
        assert forall|i: int| 0 <= i < k - 1 implies is_blank(s.skip(1)[i]) by {
            assert(s.skip(1)[i] == s[i + 1]);
        }
        if k < s.len() {
            assert(s.skip(1)[k - 1] == s[k]);
        }
        lemma_run_len_is(s.skip(1), k - 1);
    }
}

/// The reflowed text: each maximal run of three or more horizontal
/// whitespace characters is replaced by one `'\n'`; shorter runs and all
/// other characters are copied.
pub open spec fn reflow(s: Seq<char>) -> Seq<char>
    decreases s.len(),
    via reflow_decreases
{
    if s.len() == 0 {
        Seq::empty()
    } else {
        let r = run_len(s);
        if r >= 3 {
            seq!['\n'] + reflow(s.skip(r))
        } else if r >= 1 {
            s.take(r) + reflow(s.skip(r))
        } else {
            seq![s[0]] + reflow(s.skip(1))
        }
    }
}

#[via_fn]
proof fn reflow_decreases(s: Seq<char>) {
    lemma_run_len(s);
}

/// No window of three consecutive characters is all horizontal whitespace.
pub open spec fn no_long_run(t: Seq<char>) -> bool {
    forall|i: int|
        0 <= i && i + 2 < t.len() ==> !(is_blank(#[trigger] t[i]) && is_blank(t[i + 1])
            && is_blank(t[i + 2]))
}

/// A nonempty text reflows to a nonempty text, and a text that opens with a
/// character that is not horizontal whitespace keeps that first character.
pub proof fn lemma_reflow_head(s: Seq<char>)
    requires
        s.len() > 0,
    ensures
        reflow(s).len() > 0,
        !is_blank(s[0]) ==> reflow(s)[0] == s[0] && !is_blank(reflow(s)[0]),
{
    lemma_run_len(s);
}

/// One pass leaves no long whitespace run behind.
pub proof fn lemma_reflow_no_long_run(s: Seq<char>)
    ensures
        no_long_run(reflow(s)),
    decreases s.len(),
{
    lemma_run_len(s);
    if s.len() == 0 {
    } else {
        let r = run_len(s);
        let t = reflow(s);
        if r >= 3 {
            let rest = s.skip(r);
            lemma_reflow_no_long_run(rest);
            assert forall|i: int|
                0 <= i && i + 2 < t.len() implies !(is_blank(#[trigger] t[i]) && is_blank(
                t[i + 1],
            ) && is_blank(t[i + 2])) by {
                if i == 0 {
                    assert(t[0] == '\n');
                    assert(!is_blank(t[0]));
                } else {
                    assert(t[i] == reflow(rest)[i - 1]);
                    assert(t[i + 1] == reflow(rest)[i]);
                    assert(t[i + 2] == reflow(rest)[i + 1]);
                }
            }
        } else if r >= 1 {
            let rest = s.skip(r);
            lemma_reflow_no_long_run(rest);
            if rest.len() == 0 {
                assert(t =~= s.take(r));
            } else {
                assert(!is_blank(rest[0]));
                lemma_reflow_head(rest);
                assert forall|i: int|
                    0 <= i && i + 2 < t.len() implies !(is_blank(#[trigger] t[i]) && is_blank(
                    t[i + 1],
                ) && is_blank(t[i + 2])) by {
                    if i + 2 < r {
                        // impossible: the kept run is at most two characters
                        assert(false);
                    } else if i < r {
                        // the window crosses into the reflowed rest at a
                        // non-whitespace first character
                        assert(t[r] == reflow(rest)[0]);
                        assert(!is_blank(t[r]));
                        assert(i <= r <= i + 2);
                    } else {
                        assert(t[i] == reflow(rest)[i - r]);
                        assert(t[i + 1] == reflow(rest)[i + 1 - r]);
                        assert(t[i + 2] == reflow(rest)[i + 2 - r]);
                    }
                }
            }
        } else {
            let rest = s.skip(1);
            lemma_reflow_no_long_run(rest);
            assert forall|i: int|
                0 <= i && i + 2 < t.len() implies !(is_blank(#[trigger] t[i]) && is_blank(
                t[i + 1],
            ) && is_blank(t[i + 2])) by {
                if i == 0 {
                    assert(t[0] == s[0]);
                    assert(!is_blank(t[0]));
                } else {
                    assert(t[i] == reflow(rest)[i - 1]);
                    assert(t[i + 1] == reflow(rest)[i]);
                    assert(t[i + 2] == reflow(rest)[i + 1]);
                }
            }
        }
    }
}

/// A text with no long whitespace run reflows to itself.
pub proof fn lemma_reflow_clean(s: Seq<char>)
    requires
        no_long_run(s),
    ensures
        reflow(s) == s,
    decreases s.len(),
{
    lemma_run_len(s);
    if s.len() == 0 {
        assert(reflow(s) =~= s);
    } else {
        let r = run_len(s);
        if r >= 3 {
            assert(is_blank(s[0]) && is_blank(s[1]) && is_blank(s[2]));
            assert(false);
        } else if r >= 1 {
            let rest = s.skip(r);
            assert forall|i: int|
                0 <= i && i + 2 < rest.len() implies !(is_blank(#[trigger] rest[i]) && is_blank(
                rest[i + 1],
            ) && is_blank(rest[i + 2])) by {
                assert(rest[i] == s[r + i]);
                assert(rest[i + 1] == s[r + i + 1]);
                assert(rest[i + 2] == s[r + i + 2]);
            }
            lemma_reflow_clean(rest);
            assert(reflow(s) =~= s);
        } else {
            let rest = s.skip(1);
            assert forall|i: int|
                0 <= i && i + 2 < rest.len() implies !(is_blank(#[trigger] rest[i]) && is_blank(
                rest[i + 1],
            ) && is_blank(rest[i + 2])) by {
                assert(rest[i] == s[1 + i]);
                assert(rest[i + 1] == s[1 + i + 1]);
                assert(rest[i + 2] == s[1 + i + 2]);
            }
            lemma_reflow_clean(rest);
            assert(reflow(s) =~= s);
        }
    }
}

/// Reflow is idempotent: a second pass over already reflowed text changes
/// nothing, so repairing a page twice equals repairing it once.
pub proof fn lemma_reflow_idempotent(s: Seq<char>)
    ensures
        reflow(reflow(s)) == reflow(s),
{
    lemma_reflow_no_long_run(s);
    lemma_reflow_clean(reflow(s));
}

/// Reflows a text, as `reflow` describes it.
pub fn reflow_chars(s: &Vec<char>) -> (r: Vec<char>)
    ensures
        r@ == reflow(s@),
{
    let n = s.len();
    let mut out: Vec<char> = Vec::new();
    let mut i: usize = 0;
    proof {
        assert(s@.skip(0) =~= s@);
        assert(out@ + reflow(s@) =~= reflow(s@));
    }
    while i < n
        invariant
            0 <= i <= n,
            n == s@.len(),
            reflow(s@) == out@ + reflow(s@.skip(i as int)),
        decreases n - i,
    {
        let mut j: usize = i;
        while j < n && (s[j] == ' ' || s[j] == '\t')
            invariant
                i <= j <= n,
                n == s@.len(),
                forall|k: int| i <= k < j ==> is_blank(s@[k]),
            decreases n - j,
        {
            j = j + 1;
        }
        let ghost suf = s@.skip(i as int);
        proof {
            assert forall|k: int| 0 <= k < j - i implies is_blank(suf[k]) by {
                assert(suf[k] == s@[i + k]);
            }
            if j < n {
                assert(suf[j - i] == s@[j as int]);
            }
            lemma_run_len_is(suf, j - i);
        }
        let ghost pre_out = out@;
        if j - i >= 3 {
            out.push('\n');
            proof {
                assert(suf.skip(j - i) =~= s@.skip(j as int));
                assert(out@ =~= pre_out + seq!['\n']);
                assert(reflow(suf) == seq!['\n'] + reflow(s@.skip(j as int)));
                assert(pre_out + (seq!['\n'] + reflow(s@.skip(j as int))) =~= out@ + reflow(
                    s@.skip(j as int),
                ));
            }
            i = j;
        } else if j > i {
            push_range(&mut out, s, i, j);
            proof {
                assert(suf.skip(j - i) =~= s@.skip(j as int));
                assert(suf.take(j - i) =~= s@.subrange(i as int, j as int));
                assert(out@ =~= pre_out + suf.take(j - i));
                assert(reflow(suf) == suf.take(j - i) + reflow(s@.skip(j as int)));
                assert(pre_out + (suf.take(j - i) + reflow(s@.skip(j as int))) =~= out@
                    + reflow(s@.skip(j as int)));
            }
            i = j;
        } else {
            let c = s[i];
            out.push(c);
            proof {
                assert(run_len(suf) == 0);
                assert(suf.skip(1) =~= s@.skip(i + 1));
                assert(suf[0] == s@[i as int]);
                assert(out@ =~= pre_out + seq![s@[i as int]]);
                assert(reflow(suf) == seq![suf[0]] + reflow(s@.skip(i + 1)));
                assert(pre_out + (seq![suf[0]] + reflow(s@.skip(i + 1))) =~= out@ + reflow(
                    s@.skip(i + 1),
                ));
            }
            i = i + 1;
        }
    }
    proof {
        assert(s@.skip(n as int) =~= Seq::<char>::empty());
        assert(out@ + reflow(Seq::<char>::empty()) =~= out@);
    }
    out
}

} // verus!
