//! Page identity: a page id is a non-negative integer, shown as a decimal
//! token zero-padded to at least three digits, naming the file
//! `<token>.txt` inside the working directory. Formatting, parsing and the
//! next/previous arithmetic live here; reading and writing the files is the
//! caller's business.
use vstd::prelude::*;

use crate::text::string_of_chars;

verus! {

/// The decimal digit character for `d`.
pub open spec fn digit_char(d: int) -> char {
    ((d + 48) as u8) as char
}

/// The decimal representation of `n`, most significant digit first.
pub open spec fn dec_rep(n: int) -> Seq<char>
    decreases n,
{
    if n < 10 {
        seq![digit_char(n)]
    } else {
        dec_rep(n / 10).push(digit_char(n % 10))
    }
}

/// The page token of `n`: its decimal representation, zero-padded on the
/// left to at least three digits.
pub open spec fn page_token(n: int) -> Seq<char> {
    let d = dec_rep(n);
    if d.len() >= 3 {
        d
    } else {
        Seq::new((3 - d.len()) as nat, |i: int| '0') + d
    }
}

/// The file name a page id addresses.
pub open spec fn page_file_name(n: int) -> Seq<char> {
    page_token(n) + seq!['.', 't', 'x', 't']
}

/// The numeric value of a digit token, most significant digit first.
pub open spec fn dec_val(s: Seq<char>) -> int
    decreases s.len(),
{
    if s.len() == 0 {
        0
    } else {
        dec_val(s.drop_last()) * 10 + (s.last() as int - 48)
    }
}

/// Every character of `s` is a decimal digit.
pub open spec fn all_digits(s: Seq<char>) -> bool {
    forall|i: int| 0 <= i < s.len() ==> 48 <= #[trigger] s[i] as int <= 57
}

/// The value of a digit token never shrinks as digits are appended.
pub proof fn lemma_dec_val_extend(s: Seq<char>, k: int)
    requires
        all_digits(s),
        0 <= k <= s.len(),
    ensures
        0 <= dec_val(s.take(k)) <= dec_val(s),
    decreases s.len() - k,
{
    if k == s.len() {
        assert(s.take(k) =~= s);
        lemma_dec_val_nonneg(s);
    } else {
        lemma_dec_val_extend(s, k + 1);
        assert(s.take(k + 1).drop_last() =~= s.take(k));
        assert(s.take(k + 1).last() == s[k]);
        lemma_dec_val_nonneg(s.take(k));
        assert(dec_val(s.take(k + 1)) == dec_val(s.take(k)) * 10 + (s[k] as int - 48));
    }
}

proof fn lemma_dec_val_nonneg(s: Seq<char>)
    requires
        all_digits(s),
    ensures
        dec_val(s) >= 0,
    decreases s.len(),
{
    if s.len() > 0 {
        assert(all_digits(s.drop_last())) by {
            assert(forall|i: int|
                0 <= i < s.len() - 1 ==> #[trigger] s.drop_last()[i] as int == s[i] as int);
        }
        lemma_dec_val_nonneg(s.drop_last());
        assert(48 <= s.last() as int <= 57);
    }
}

/// Prepending a zero to a token never changes its value, and keeps it a
/// digit token.
proof fn lemma_leading_zero(s: Seq<char>)
    ensures
        dec_val(seq!['0'] + s) == dec_val(s),
        all_digits(s) ==> all_digits(seq!['0'] + s),
    decreases s.len(),
{
    if s.len() == 0 {
        assert((seq!['0'] + s) =~= seq!['0']);
        assert(seq!['0'].drop_last() =~= Seq::<char>::empty());
        assert(seq!['0'].last() == '0');
        assert('0' as int == 48);
        assert(dec_val(Seq::<char>::empty()) == 0);
        assert(dec_val(seq!['0']) == 0);
        assert(all_digits(seq!['0'] + s)) by {
            assert((seq!['0'] + s)[0] == '0');
        }
    } else {
        assert((seq!['0'] + s).drop_last() =~= seq!['0'] + s.drop_last());
        assert((seq!['0'] + s).last() == s.last());
        lemma_leading_zero(s.drop_last());
        if all_digits(s) {
            assert forall|i: int| 0 <= i < s.len() + 1 implies 48 <= #[trigger] (seq!['0']
                + s)[i] as int <= 57 by {
                if i > 0 {
                    assert((seq!['0'] + s)[i] == s[i - 1]);
                }
            }
        }
    }
}

/// Any number of leading zeros leaves a token's value alone.
proof fn lemma_zeros_prefix(s: Seq<char>, k: int)
    requires
        k >= 0,
        all_digits(s),
    ensures
        ({
            let z = Seq::new(k as nat, |i: int| '0');
            all_digits(z + s) && dec_val(z + s) == dec_val(s)
        }),
    decreases k,
{
    if k == 0 {
        assert(Seq::new(0nat, |i: int| '0') + s =~= s);
    } else {
        lemma_zeros_prefix(s, k - 1);
        let z1 = Seq::new((k - 1) as nat, |i: int| '0');
        let z = Seq::new(k as nat, |i: int| '0');
        assert(z + s =~= seq!['0'] + (z1 + s));
        lemma_leading_zero(z1 + s);
    }
}

/// The decimal representation is a digit token whose value is the number it
/// represents.
proof fn lemma_dec_rep_value(n: int)
    requires
        n >= 0,
    ensures
        dec_rep(n).len() >= 1,
        all_digits(dec_rep(n)),
        dec_val(dec_rep(n)) == n,
    decreases n,
{
    if n < 10 {
        assert(digit_char(n) as int == 48 + n);
        assert(dec_rep(n) =~= seq![digit_char(n)]);
        assert(dec_rep(n).drop_last() =~= Seq::<char>::empty());
        assert(dec_val(Seq::<char>::empty()) == 0);
    } else {
        lemma_dec_rep_value(n / 10);
        let d = digit_char(n % 10);
        assert(d as int == 48 + n % 10);
        assert(dec_rep(n).drop_last() =~= dec_rep(n / 10));
        assert(dec_rep(n).last() == d);
        assert(n == (n / 10) * 10 + n % 10) by (nonlinear_arith);
        assert(dec_val(dec_rep(n)) == (n / 10) * 10 + n % 10);
        assert forall|i: int| 0 <= i < dec_rep(n).len() implies 48 <= #[trigger] dec_rep(n)[i]
            as int <= 57 by {
            if i < dec_rep(n).len() - 1 {
                assert(dec_rep(n)[i] == dec_rep(n / 10)[i]);
            }
        }
    }
}

/// A formatted page token parses back to the id it was formatted from: the
/// zero padding never changes the value, so navigating by the displayed
/// token always reaches the displayed page.
pub proof fn lemma_token_round_trip(id: u32)
    ensures
        page_token(id as int).len() > 0,
        all_digits(page_token(id as int)),
        dec_val(page_token(id as int)) == id,
{
    lemma_dec_rep_value(id as int);
    let rep = dec_rep(id as int);
    if rep.len() < 3 {
        lemma_zeros_prefix(rep, 3 - rep.len());
    }
}

/// Formats a page id as its zero-padded token.
pub fn format_page_id(id: u32) -> (v: Vec<char>)
    ensures
        v@ == page_token(id as int),
{
    let mut digits: Vec<char> = Vec::new();
    let mut x: u32 = id;
    while x >= 10
        invariant
            dec_rep(id as int) == dec_rep(x as int) + digits@,
        decreases x,
    {
        let d: u8 = (x % 10) as u8 + 48;
        let ghost pre = digits@;
        digits.insert(0, d as char);
        proof {
            assert(d as char == digit_char(x as int % 10));
            assert(dec_rep(x as int) == dec_rep(x as int / 10).push(digit_char(x as int % 10)));
            assert(dec_rep(x as int / 10) + digits@ =~= dec_rep(x as int / 10).push(
                digit_char(x as int % 10),
            ) + pre);
        }
        x = x / 10;
    }
    let d: u8 = x as u8 + 48;
    let ghost pre = digits@;
    digits.insert(0, d as char);
    proof {
        assert(d as char == digit_char(x as int));
        assert(dec_rep(x as int) == seq![digit_char(x as int)]);
        assert(digits@ =~= dec_rep(x as int) + pre);
        assert(digits@ == dec_rep(id as int));
    }
    let ghost rep = dec_rep(id as int);
    while digits.len() < 3
        invariant
            rep == dec_rep(id as int),
            rep.len() <= digits@.len(),
            digits@.skip(digits@.len() - rep.len()) == rep,
            forall|i: int| 0 <= i < digits@.len() - rep.len() ==> digits@[i] == '0',
            rep.len() >= 3 ==> digits@ == rep,
            digits@.len() <= 3 || digits@ == rep,
        decreases 3 - digits@.len(),
    {
        let ghost pre = digits@;
        digits.insert(0, '0');
        proof {
            assert(digits@.skip(digits@.len() - rep.len()) =~= pre.skip(pre.len() - rep.len()));
        }
    }
    proof {
        if rep.len() >= 3 {
            assert(digits@ == page_token(id as int));
        } else {
            assert(digits@.len() == 3);
            let z = Seq::new((3 - rep.len()) as nat, |i: int| '0');
            assert(digits@ =~= z + rep);
        }
    }
    digits
}

/// Formats the file name a page id addresses.
pub fn format_file_name(id: u32) -> (s: String)
    ensures
        s@ == page_file_name(id as int),
{
    let mut v = format_page_id(id);
    v.push('.');
    v.push('t');
    v.push('x');
    v.push('t');
    proof {
        assert(v@ =~= page_file_name(id as int));
    }
    string_of_chars(&v)
}

/// Parses a page id token: the whole token must be decimal digits and the
/// value must fit; anything else — an empty token, a stray character, a
/// value past the largest id — is refused, exactly as stated.
pub fn parse_page_id(s: &Vec<char>) -> (r: Option<u32>)
    ensures
        r is Some <==> (s@.len() > 0 && all_digits(s@) && dec_val(s@) <= u32::MAX),
        r matches Some(v) ==> v as int == dec_val(s@),
{
    let n = s.len();
    if n == 0 {
        return None;
    }
    let mut v: u32 = 0;
    let mut i: usize = 0;
    proof {
        assert(s@.take(0) =~= Seq::<char>::empty());
    }
    while i < n
        invariant
            0 <= i <= n,
            n == s@.len(),
            all_digits(s@.take(i as int)),
            v as int == dec_val(s@.take(i as int)),
        decreases n - i,
    {
        let c = s[i];
        let dv: Option<u32> = match c {
            '0' => Some(0),
            '1' => Some(1),
            '2' => Some(2),
            '3' => Some(3),
            '4' => Some(4),
            '5' => Some(5),
            '6' => Some(6),
            '7' => Some(7),
            '8' => Some(8),
            '9' => Some(9),
            _ => None,
        };
        let d: u32 = match dv {
            Some(d) => d,
            None => {
                proof {
                    assert(!(48 <= s@[i as int] as int <= 57));
                }
                return None;
            },
        };
        proof {
            assert(s@[i as int] as int == 48 + d);
        }
        if v > (u32::MAX - d) / 10 {
            proof {
                assert forall|k: int| 0 <= k < i + 1 implies 48 <= #[trigger] s@.take(i + 1)[k]
                    as int <= 57 by {
                    if k < i {
                        assert(s@.take(i + 1)[k] == s@.take(i as int)[k]);
                    } else {
                        assert(s@.take(i + 1)[k] == s@[i as int]);
                    }
                }
                assert(all_digits(s@.take(i + 1)));
                assert(s@.take(i + 1).drop_last() =~= s@.take(i as int));
                assert(dec_val(s@.take(i + 1)) == v as int * 10 + d);
                assert(v as int * 10 + d > u32::MAX) by (nonlinear_arith)
                    requires
                        v > (u32::MAX - d) / 10,
                        d <= 9,
                        v <= u32::MAX,
                ;
                if all_digits(s@) {
                    lemma_dec_val_extend(s@, i + 1);
                    assert(dec_val(s@) > u32::MAX);
                }
            }
            return None;
        }
        let ghost pre_take = s@.take(i as int);
        v = v * 10 + d;
        i = i + 1;
        proof {
            assert(s@.take(i as int) =~= pre_take.push(s@[i - 1]));
            assert(s@.take(i as int).drop_last() =~= pre_take);
            assert(dec_val(s@.take(i as int)) == dec_val(pre_take) * 10 + (s@[i - 1] as int
                - 48));
            assert forall|k: int| 0 <= k < i implies 48 <= #[trigger] s@.take(i as int)[k]
                as int <= 57 by {
                if k < i - 1 {
                    assert(s@.take(i as int)[k] == pre_take[k]);
                } else {
                    assert(s@.take(i as int)[k] == s@[i - 1]);
                }
            }
        }
    }
    proof {
        assert(s@.take(n as int) =~= s@);
    }
    Some(v)
}

/// The id one page forward; the largest id has no successor and the caller
/// reports that, rather than wrapping.
pub fn next_page_id(id: u32) -> (r: Option<u32>)
    ensures
        r is Some <==> id < u32::MAX,
        r matches Some(v) ==> v == id + 1,
{
    if id < u32::MAX {
        Some(id + 1)
    } else {
        None
    }
}

/// The id one page back; page zero has no predecessor, and stepping back
/// from it is reported rather than wrapping below zero.
pub fn prev_page_id(id: u32) -> (r: Option<u32>)
    ensures
        r is Some <==> id > 0,
        r matches Some(v) ==> v == id - 1,
{
    if id > 0 {
        Some(id - 1)
    } else {
        None
    }
}

} // verus!
