//! The scale-factor descriptor pattern of the strong-motion ASCII headers.
//!
//! A descriptor has the shape `<numerator>(gal)/<denominator>`, both halves
//! being non-empty digit runs (for example `7845(gal)/8223790`).  The
//! functions here find such descriptors inside arbitrary text, leftmost
//! first, capturing the two maximal digit runs exactly as written.

use vstd::prelude::*;
use crate::text::{digit_run_len, is_digit_char, lemma_digit_run_len_le, lemma_digit_run_digits};

verus! {

/// A captured descriptor: the two digit groups, as written in the text.
#[derive(Debug, Clone, PartialEq, Eq)]
pub struct ScaleFactorMatch {
    pub numerator: String,
    pub denominator: String,
}

/// A descriptor match starts at `i`: a non-empty digit run, the literal
/// `(gal)/`, and at least one more digit.
pub open spec fn matches_at(s: Seq<char>, i: int) -> bool {
    &&& 0 <= i < s.len()
    &&& is_digit_char(s[i])
    &&& {
        let j = i + digit_run_len(s.skip(i));
        &&& j + 7 <= s.len()
        &&& s[j] == '('
        &&& s[j + 1] == 'g'
        &&& s[j + 2] == 'a'
        &&& s[j + 3] == 'l'
        &&& s[j + 4] == ')'
        &&& s[j + 5] == '/'
        &&& is_digit_char(s[j + 6])
    }
}

/// The numerator of the match starting at `i`.
pub open spec fn numerator_at(s: Seq<char>, i: int) -> Seq<char>
    recommends
        matches_at(s, i),
{
    s.subrange(i, i + digit_run_len(s.skip(i)))
}

/// The index one past the match starting at `i`.
pub open spec fn match_end_at(s: Seq<char>, i: int) -> int
    recommends
        matches_at(s, i),
{
    let j = i + digit_run_len(s.skip(i)) + 6;
    j + digit_run_len(s.skip(j))
}

/// The denominator of the match starting at `i`.
pub open spec fn denominator_at(s: Seq<char>, i: int) -> Seq<char>
    recommends
        matches_at(s, i),
{
    let j = i + digit_run_len(s.skip(i)) + 6;
    s.subrange(j, match_end_at(s, i))
}

/// A match spans at least eight characters and stays within the text.
pub proof fn lemma_match_extent(s: Seq<char>, i: int)
    requires
        matches_at(s, i),
    ensures
        i + 8 <= match_end_at(s, i) <= s.len(),
{
    lemma_digit_run_len_le(s.skip(i));
    assert(s.skip(i)[0] == s[i]);
    assert(digit_run_len(s.skip(i)) >= 1);
    let j = i + digit_run_len(s.skip(i)) + 6;
    lemma_digit_run_len_le(s.skip(j));
    assert(s.skip(j)[0] == s[j]);
    assert(digit_run_len(s.skip(j)) >= 1);
}

/// Both captures of a match are non-empty digit strings.
pub proof fn lemma_capture_digits(s: Seq<char>, i: int)
    requires
        matches_at(s, i),
    ensures
        crate::text::all_digits(numerator_at(s, i)),
        numerator_at(s, i).len() >= 1,
        crate::text::all_digits(denominator_at(s, i)),
        denominator_at(s, i).len() >= 1,
{
    lemma_match_extent(s, i);
    let a = digit_run_len(s.skip(i)) as int;
    lemma_digit_run_len_le(s.skip(i));
    lemma_digit_run_digits(s.skip(i));
    assert(s.skip(i)[0] == s[i]);
    let num = numerator_at(s, i);
    assert forall|k: int| 0 <= k < num.len() implies crate::text::is_digit_char(
        #[trigger] num[k],
    ) by {
        assert(num[k] == s[i + k]);
        assert(s.skip(i)[k] == s[i + k]);
    }
    let j = i + a + 6;
    lemma_digit_run_len_le(s.skip(j));
    lemma_digit_run_digits(s.skip(j));
    assert(s.skip(j)[0] == s[j]);
    let den = denominator_at(s, i);
    assert forall|k: int| 0 <= k < den.len() implies crate::text::is_digit_char(
        #[trigger] den[k],
    ) by {
        assert(den[k] == s[j + k]);
        assert(s.skip(j)[k] == s[j + k]);
    }
}

/// The position of the leftmost match at or after `p`, if any.
pub open spec fn find_match_from(s: Seq<char>, p: int) -> Option<int>
    decreases s.len() - p,
{
    if p < 0 || p >= s.len() {
        None
    } else if matches_at(s, p) {
        Some(p)
    } else {
        find_match_from(s, p + 1)
    }
}

/// What `find_match_from` returns is a match, and nothing before it is.
pub proof fn lemma_find_match_from(s: Seq<char>, p: int)
    requires
        0 <= p <= s.len(),
    ensures
        match find_match_from(s, p) {
            Some(i) => p <= i < s.len() && matches_at(s, i) && forall|k: int|
                p <= k < i ==> !matches_at(s, k),
            None => forall|k: int| p <= k < s.len() ==> !matches_at(s, k),
        },
    decreases s.len() - p,
{
    if p < s.len() && !matches_at(s, p) {
        lemma_find_match_from(s, p + 1);
    }
}

/// All matches of `s` at or after `p`, leftmost first, each search resuming
/// one past the end of the previous match; each entry is the pair
/// (numerator, denominator).
pub open spec fn matches_from(s: Seq<char>, p: int) -> Seq<(Seq<char>, Seq<char>)>
    decreases s.len() - p,
    via matches_from_decreases
{
    if 0 <= p <= s.len() {
        match find_match_from(s, p) {
            None => Seq::empty(),
            Some(i) => seq![(numerator_at(s, i), denominator_at(s, i))] + matches_from(
                s,
                match_end_at(s, i),
            ),
        }
    } else {
        Seq::empty()
    }
}

#[via_fn]
proof fn matches_from_decreases(s: Seq<char>, p: int) {
    if 0 <= p <= s.len() {
        lemma_find_match_from(s, p);
        if let Some(i) = find_match_from(s, p) {
            lemma_match_extent(s, i);
        }
    }
}

/// Tests for a match starting exactly at `i`; on success returns the end
/// of the numerator run and the end of the whole match.
fn try_match_at(v: &Vec<char>, i: usize) -> (r: Option<(usize, usize)>)
    requires
        i < v@.len(),
    ensures
        r is Some <==> matches_at(v@, i as int),
        r matches Some(b) ==> b.0 == i + digit_run_len(v@.skip(i as int)) && b.1 == match_end_at(
            v@,
            i as int,
        ),
{
    let n = v.len();
    let u = v[i] as u32;
    if !(48 <= u && u <= 57) {
        return None;
    }
    assert(v@.skip(i as int)[0] == v@[i as int]);
    let j = crate::text::digit_run_end(v, i);
    if n - j < 7 {
        return None;
    }
    if !(v[j] == '(' && v[j + 1] == 'g' && v[j + 2] == 'a' && v[j + 3] == 'l' && v[j + 4] == ')'
        && v[j + 5] == '/') {
        return None;
    }
    let du = v[j + 6] as u32;
    if !(48 <= du && du <= 57) {
        return None;
    }
    let e = crate::text::digit_run_end(v, j + 6);
    Some((j, e))
}

/// The leftmost descriptor of `text`, if any.
pub fn scale_factor_captures(text: &str) -> (r: Option<ScaleFactorMatch>)
    ensures
        match find_match_from(text@, 0) {
            Some(i) => r matches Some(m) && m.numerator@ == numerator_at(text@, i)
                && m.denominator@ == denominator_at(text@, i),
            None => r is None,
        },
{
    let v = crate::text::chars_of(text);
    let n = v.len();
    let mut p: usize = 0;
    while p < n
        invariant
            n == text@.len(),
            v@ == text@,
            p <= n,
            find_match_from(text@, 0) == find_match_from(text@, p as int),
        decreases n - p,
    {
        match try_match_at(&v, p) {
            Some((j, e)) => {
                proof {
                    lemma_match_extent(text@, p as int);
                }
                let numerator = text.substring_char(p, j).to_owned();
                let denominator = text.substring_char(j + 6, e).to_owned();
                assert(numerator@ =~= numerator_at(text@, p as int));
                assert(denominator@ =~= denominator_at(text@, p as int));
                return Some(ScaleFactorMatch { numerator, denominator });
            },
            None => {
            },
        }
        p = p + 1;
    }
    None
}

/// Every descriptor of `text`, leftmost first.
pub fn scale_factor_captures_iter(text: &str) -> (r: Vec<ScaleFactorMatch>)
    ensures
        r@.len() == matches_from(text@, 0).len(),
        forall|k: int|
            0 <= k < r@.len() ==> (#[trigger] r@[k]).numerator@ == matches_from(text@, 0)[k].0
                && r@[k].denominator@ == matches_from(text@, 0)[k].1,
{
    let ghost total = matches_from(text@, 0);
    let v = crate::text::chars_of(text);
    let n = v.len();
    let mut r: Vec<ScaleFactorMatch> = Vec::new();
    let mut p: usize = 0;
    let mut done = false;
    while !done && p <= n
        invariant
            n == text@.len(),
            v@ == text@,
            p <= n + 1,
            !done ==> p <= n,
            total == matches_from(text@, 0),
            matches_from(text@, p as int) =~= total.skip(r@.len() as int),
            r@.len() <= total.len(),
            done ==> matches_from(text@, p as int) =~= Seq::<(Seq<char>, Seq<char>)>::empty(),
            forall|k: int|
                0 <= k < r@.len() ==> (#[trigger] r@[k]).numerator@ == total[k].0
                    && r@[k].denominator@ == total[k].1,
        decreases n + 1 - p, (if done { 0int } else { 1int }),
    {
        // find the next match at or after p
        let mut q: usize = p;
        let mut found: Option<(usize, usize, usize)> = None;
        while q < n && found.is_none()
            invariant
                n == text@.len(),
                v@ == text@,
                p <= q <= n,
                match found {
                    Some(f) => q < n && find_match_from(text@, p as int) == Some(q as int) && f.0
                        == q && f.1 == q + digit_run_len(text@.skip(q as int)) && f.2
                        == match_end_at(text@, q as int),
                    None => find_match_from(text@, p as int) == find_match_from(text@, q as int),
                },
            decreases n - q, (if found.is_none() { 1int } else { 0int }),
        {
            match try_match_at(&v, q) {
                Some((j, e)) => {
                    found = Some((q, j, e));
                },
                None => {
                    q = q + 1;
                },
            }
        }
        match found {
            Some((i, j, e)) => {
                proof {
                    lemma_find_match_from(text@, p as int);
                    lemma_match_extent(text@, i as int);
                }
                let numerator = text.substring_char(i, j).to_owned();
                let denominator = text.substring_char(j + 6, e).to_owned();
                assert(numerator@ =~= numerator_at(text@, i as int));
                assert(denominator@ =~= denominator_at(text@, i as int));
                let ghost c = r@.len() as int;
                r.push(ScaleFactorMatch { numerator, denominator });
                proof {
                    assert(matches_from(text@, p as int) == seq![
                        (numerator_at(text@, i as int), denominator_at(text@, i as int)),
                    ] + matches_from(text@, match_end_at(text@, i as int)));
                    assert(total.skip(c)[0] == matches_from(text@, p as int)[0]);
                    assert(matches_from(text@, e as int) =~= total.skip(c + 1)) by {
                        assert(matches_from(text@, e as int) =~= matches_from(
                            text@,
                            p as int,
                        ).drop_first());
                        assert(total.skip(c).drop_first() =~= total.skip(c + 1));
                    }
                }
                p = e;
            },
            None => {
                proof {
                    if q >= n {
                        assert(find_match_from(text@, q as int) is None);
                    }
                }
                done = true;
            },
        }
    }
    proof {
        assert(total.skip(r@.len() as int).len() == 0);
    }
    r
}

} // verus!
