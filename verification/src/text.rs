//! Verified text utilities for the ASCII decoders: whitespace tokenization,
//! digit-string evaluation, and fixed-point decimal parsing.

use vstd::prelude::*;

verus! {

/// ASCII whitespace, the token separators of the strong-motion headers.
pub open spec fn is_space_char(c: char) -> bool {
    c == ' ' || c == '\t' || c == '\n' || c == '\r' || c == '\x0b' || c == '\x0c'
}

/// A decimal digit.
pub open spec fn is_digit_char(c: char) -> bool {
    48 <= c as u32 <= 57
}

/// The numeric value of a digit character.
pub open spec fn digit_val(c: char) -> int
    recommends
        is_digit_char(c),
{
    c as u32 - 48
}

/// Length of the leading run of non-space characters.
pub open spec fn token_len(s: Seq<char>) -> nat
    decreases s.len(),
{
    if s.len() == 0 || is_space_char(s[0]) {
        0
    } else {
        1 + token_len(s.drop_first())
    }
}

/// Length of the leading run of digit characters.
pub open spec fn digit_run_len(s: Seq<char>) -> nat
    decreases s.len(),
{
    if s.len() == 0 || !is_digit_char(s[0]) {
        0
    } else {
        1 + digit_run_len(s.drop_first())
    }
}

/// The leading run of non-space characters is no longer than the string.
pub proof fn lemma_token_len_le(s: Seq<char>)
    ensures
        token_len(s) <= s.len(),
    decreases s.len(),
{
    if s.len() > 0 && !is_space_char(s[0]) {
        lemma_token_len_le(s.drop_first());
    }
}

/// The `n`th whitespace-delimited token of `s` (0-based), if `s` has that
/// many tokens.
pub open spec fn nth_token_of(s: Seq<char>, n: nat) -> Option<Seq<char>>
    decreases s.len(), n,
    via nth_token_of_decreases
{
    if s.len() == 0 {
        None
    } else if is_space_char(s[0]) {
        nth_token_of(s.drop_first(), n)
    } else if n == 0 {
        Some(s.take(token_len(s) as int))
    } else {
        nth_token_of(s.skip(token_len(s) as int), (n - 1) as nat)
    }
}

#[via_fn]
proof fn nth_token_of_decreases(s: Seq<char>, n: nat) {
    lemma_token_len_le(s);
}

/// The value of a digit string read most-significant first.
pub open spec fn digits_val(s: Seq<char>) -> int
    decreases s.len(),
{
    if s.len() == 0 {
        0
    } else {
        digits_val(s.drop_last()) * 10 + digit_val(s.last())
    }
}

/// Every character of `s` is a digit.
pub open spec fn all_digits(s: Seq<char>) -> bool {
    forall|i: int| 0 <= i < s.len() ==> is_digit_char(#[trigger] s[i])
}

/// A digit string evaluates to a non-negative number.
pub proof fn lemma_digits_val_nonneg(s: Seq<char>)
    requires
        all_digits(s),
    ensures
        digits_val(s) >= 0,
    decreases s.len(),
{
    if s.len() > 0 {
        assert(all_digits(s.drop_last()));
        lemma_digits_val_nonneg(s.drop_last());
    }
}

/// Extending a digit string on the right never decreases its value.
pub proof fn lemma_digits_val_prefix(s: Seq<char>, i: int)
    requires
        all_digits(s),
        0 <= i <= s.len(),
    ensures
        digits_val(s.take(i)) <= digits_val(s),
    decreases s.len() - i,
{
    if i < s.len() {
        let t = s.take(i + 1);
        assert(t.drop_last() =~= s.take(i));
        assert(all_digits(t));
        lemma_digits_val_nonneg(s.take(i));
        assert(digits_val(t) == digits_val(s.take(i)) * 10 + digit_val(t.last()));
        lemma_digits_val_prefix(s, i + 1);
        assert(s.take(s.len() as int) =~= s);
    } else {
        assert(s.take(i) =~= s);
    }
}

/// The characters of `s`, as a vector.
pub fn chars_of(s: &str) -> (r: Vec<char>)
    ensures
        r@ == s@,
{
    let len = s.unicode_len();
    let mut r: Vec<char> = Vec::new();
    let mut i: usize = 0;
    while i < len
        invariant
            len == s@.len(),
            i <= len,
            r@ =~= s@.take(i as int),
        decreases len - i,
    {
        r.push(s.get_char(i));
        assert(r@ =~= s@.take(i + 1));
        i = i + 1;
    }
    assert(s@.take(len as int) =~= s@);
    r
}

/// Whether `c` is ASCII whitespace.
fn is_space(c: char) -> (r: bool)
    ensures
        r == is_space_char(c),
{
    match c {
        ' ' | '\t' | '\n' | '\r' | '\x0b' | '\x0c' => true,
        _ => false,
    }
}

/// Whether `c` is a decimal digit.
fn is_digit(c: char) -> (r: bool)
    ensures
        r == is_digit_char(c),
{
    let u = c as u32;
    48 <= u && u <= 57
}

/// The end of the non-space run starting at `i`.
fn token_end(v: &Vec<char>, i: usize) -> (j: usize)
    requires
        i <= v@.len(),
    ensures
        i <= j <= v@.len(),
        j - i == token_len(v@.skip(i as int)),
    decreases v@.len() - i,
{
    if i == v.len() {
        i
    } else if is_space(v[i]) {
        assert(v@.skip(i as int)[0] == v@[i as int]);
        i
    } else {
        assert(v@.skip(i as int)[0] == v@[i as int]);
        assert(v@.skip(i as int).drop_first() =~= v@.skip(i + 1));
        token_end(v, i + 1)
    }
}

/// The end of the digit run starting at `i`.
pub(crate) fn digit_run_end(v: &Vec<char>, i: usize) -> (j: usize)
    requires
        i <= v@.len(),
    ensures
        i <= j <= v@.len(),
        j - i == digit_run_len(v@.skip(i as int)),
    decreases v@.len() - i,
{
    if i == v.len() {
        i
    } else if !is_digit(v[i]) {
        assert(v@.skip(i as int)[0] == v@[i as int]);
        i
    } else {
        assert(v@.skip(i as int)[0] == v@[i as int]);
        assert(v@.skip(i as int).drop_first() =~= v@.skip(i + 1));
        digit_run_end(v, i + 1)
    }
}

/// The bounds of the `n`th token of `v`, starting the search at `from`.
fn nth_token_range(v: &Vec<char>, from: usize, n: usize) -> (r: Option<(usize, usize)>)
    requires
        from <= v@.len(),
    ensures
        match r {
            Some(b) => from <= b.0 <= b.1 <= v@.len() && nth_token_of(v@.skip(from as int), n as nat)
                == Some(v@.subrange(b.0 as int, b.1 as int)),
            None => nth_token_of(v@.skip(from as int), n as nat) is None,
        },
    decreases v@.len() - from, n,
{
    let s = Ghost(v@.skip(from as int));
    if from == v.len() {
        None
    } else if is_space(v[from]) {
        assert(s@[0] == v@[from as int]);
        assert(s@.drop_first() =~= v@.skip(from + 1));
        nth_token_range(v, from + 1, n)
    } else {
        assert(s@[0] == v@[from as int]);
        let end = token_end(v, from);
        assert(end > from) by {
            assert(token_len(s@) > 0);
        }
        if n == 0 {
            assert(s@.take(token_len(s@) as int) =~= v@.subrange(from as int, end as int));
            Some((from, end))
        } else {
            assert(s@.skip(token_len(s@) as int) =~= v@.skip(end as int));
            nth_token_range(v, end, n - 1)
        }
    }
}

/// Every character of the leading digit run is a digit.
pub proof fn lemma_digit_run_digits(s: Seq<char>)
    ensures
        forall|k: int| 0 <= k < digit_run_len(s) ==> is_digit_char(#[trigger] s[k]),
    decreases s.len(),
{
    if s.len() > 0 && is_digit_char(s[0]) {
        lemma_digit_run_len_le(s.drop_first());
        lemma_digit_run_digits(s.drop_first());
        assert forall|k: int| 0 <= k < digit_run_len(s) implies is_digit_char(#[trigger] s[k]) by {
            if k > 0 {
                assert(s.drop_first()[k - 1] == s[k]);
            }
        }
    }
}

/// The leading run of digit characters is no longer than the string.
pub proof fn lemma_digit_run_len_le(s: Seq<char>)
    ensures
        digit_run_len(s) <= s.len(),
    decreases s.len(),
{
    if s.len() > 0 && is_digit_char(s[0]) {
        lemma_digit_run_len_le(s.drop_first());
    }
}

/// Evaluates a non-empty all-digit string as a `u64`.  Returns `None` when
/// the string is empty, contains a non-digit, or its value does not fit.
pub fn parse_u64_digits(s: &str) -> (r: Option<u64>)
    ensures
        r is Some <==> s@.len() > 0 && all_digits(s@) && digits_val(s@) <= u64::MAX,
        r matches Some(x) ==> x as int == digits_val(s@),
{
    let len = s.unicode_len();
    if len == 0 {
        return None;
    }
    let mut acc: u64 = 0;
    let mut i: usize = 0;
    while i < len
        invariant
            len == s@.len(),
            i <= len,
            all_digits(s@.take(i as int)),
            acc as int == digits_val(s@.take(i as int)),
        decreases len - i,
    {
        let c = s.get_char(i);
        if !is_digit(c) {
            return None;
        }
        let d = (c as u32 - 48) as u64;
        let ghost t = s@.take(i + 1);
        proof {
            assert(t.drop_last() =~= s@.take(i as int));
            assert(t.last() == s@[i as int]);
        }
        let stepped = match acc.checked_mul(10) {
            Some(m) => m.checked_add(d),
            None => None,
        };
        match stepped {
            Some(next) => {
                acc = next;
            },
            None => {
                proof {
                    if all_digits(s@) {
                        lemma_digits_val_prefix(s@, i + 1);
                    }
                }
                return None;
            },
        }
        i = i + 1;
    }
    assert(s@.take(len as int) =~= s@);
    Some(acc)
}

/// An exactly-represented signed decimal number: the value is
/// `int_part + frac_part / 10^frac_digits`, negated when `negative` holds.
///
/// Coordinates parsed from text records are carried in this form; turning
/// them into floating point is left to the consumer of the IR.
#[derive(Debug, Clone, PartialEq, Eq)]
pub struct Decimal {
    pub negative: bool,
    pub int_part: u64,
    pub frac_part: u64,
    pub frac_digits: u32,
}

/// `s` without its leading sign, if any.
pub open spec fn decimal_body(s: Seq<char>) -> Seq<char> {
    if s.len() > 0 && (s[0] == '+' || s[0] == '-') {
        s.drop_first()
    } else {
        s
    }
}

/// Whether `s` carries a leading minus sign.
pub open spec fn decimal_is_negative(s: Seq<char>) -> bool {
    s.len() > 0 && s[0] == '-'
}

/// The decimal grammar: an optional sign, one or more digits, and
/// optionally a dot followed by one or more digits, with nothing else.
pub open spec fn is_decimal_chars(s: Seq<char>) -> bool {
    let b = decimal_body(s);
    let a = digit_run_len(b) as int;
    &&& a >= 1
    &&& (a == b.len() || {
        &&& b.len() >= a + 2
        &&& b[a] == '.'
        &&& digit_run_len(b.skip(a + 1)) == b.len() - a - 1
    })
}

/// The digits before the dot (or all digits, for an integer).
pub open spec fn decimal_int_chars(s: Seq<char>) -> Seq<char> {
    let b = decimal_body(s);
    b.take(digit_run_len(b) as int)
}

/// The digits after the dot; empty for an integer.
pub open spec fn decimal_frac_chars(s: Seq<char>) -> Seq<char> {
    let b = decimal_body(s);
    let a = digit_run_len(b) as int;
    if a == b.len() {
        Seq::empty()
    } else {
        b.skip(a + 1)
    }
}

/// Whether `s` matches the decimal grammar with both digit groups small
/// enough to represent.
pub open spec fn spec_decimal_parses(s: Seq<char>) -> bool {
    &&& is_decimal_chars(s)
    &&& digits_val(decimal_int_chars(s)) <= u64::MAX
    &&& digits_val(decimal_frac_chars(s)) <= u64::MAX
    &&& decimal_frac_chars(s).len() <= u32::MAX
}

/// Whether `d` is exactly the decimal written in `s`.
pub open spec fn spec_decimal_is(d: Decimal, s: Seq<char>) -> bool {
    &&& d.negative == decimal_is_negative(s)
    &&& d.int_part as int == digits_val(decimal_int_chars(s))
    &&& d.frac_part as int == digits_val(decimal_frac_chars(s))
    &&& d.frac_digits as int == decimal_frac_chars(s).len()
}

/// Parses `s` as an exact decimal.  Returns `None` when `s` does not match
/// the decimal grammar or either digit group's value does not fit in a
/// `u64`.
pub fn parse_decimal(s: &str) -> (r: Option<Decimal>)
    ensures
        r is Some <==> spec_decimal_parses(s@),
        r matches Some(d) ==> spec_decimal_is(d, s@),
{
    let v = chars_of(s);
    let n = v.len();
    let ghost b = decimal_body(s@);
    let (start, negative): (usize, bool) = if n > 0 && (v[0] == '+' || v[0] == '-') {
        (1, v[0] == '-')
    } else {
        (0, false)
    };
    assert(b =~= v@.skip(start as int));
    let int_end = digit_run_end(&v, start);
    if int_end == start {
        return None;
    }
    let int_str = s.substring_char(start, int_end);
    proof {
        lemma_digit_run_digits(b);
        assert(int_str@ =~= decimal_int_chars(s@));
    }
    let int_part = match parse_u64_digits(int_str) {
        Some(x) => x,
        None => {
            return None;
        },
    };
    if int_end == n {
        assert(decimal_frac_chars(s@) =~= Seq::<char>::empty());
        return Some(Decimal { negative, int_part, frac_part: 0, frac_digits: 0 });
    }
    assert(v@[int_end as int] == b[int_end - start]);
    if !(v[int_end] == '.' && int_end + 1 < n) {
        return None;
    }
    let frac_end = digit_run_end(&v, int_end + 1);
    assert(b.skip(int_end - start + 1) =~= v@.skip(int_end + 1));
    if frac_end != n {
        proof {
            lemma_digit_run_len_le(v@.skip(int_end + 1));
        }
        return None;
    }
    let frac_str = s.substring_char(int_end + 1, n);
    proof {
        lemma_digit_run_digits(b.skip(int_end - start + 1));
        assert(frac_str@ =~= decimal_frac_chars(s@));
    }
    let frac_part = match parse_u64_digits(frac_str) {
        Some(x) => x,
        None => {
            return None;
        },
    };
    let frac_len = n - (int_end + 1);
    if frac_len > u32::MAX as usize {
        return None;
    }
    Some(Decimal { negative, int_part, frac_part, frac_digits: frac_len as u32 })
}

/// Relies on `String::push`: appends exactly the given character to the
/// end of the string.
#[verifier::external_body]
pub fn push_char(s: &mut String, c: char)
    ensures
        final(s)@ == old(s)@.push(c),
{
    s.push(c);
}

/// ASCII lowercase of one character: the letters `A`–`Z` (codes 65–90)
/// shift down by 32, everything else is unchanged.
pub open spec fn lower_char(c: char) -> char {
    if 65 <= c as u32 <= 90 {
        ((c as u32) + 32) as char
    } else {
        c
    }
}

/// ASCII lowercase of a character sequence.
pub open spec fn lower(s: Seq<char>) -> Seq<char> {
    s.map_values(|c: char| lower_char(c))
}

/// ASCII lowercase of one character.
fn lower_char_exec(c: char) -> (r: char)
    ensures
        r == lower_char(c),
{
    match c {
        'A' => 'a',
        'B' => 'b',
        'C' => 'c',
        'D' => 'd',
        'E' => 'e',
        'F' => 'f',
        'G' => 'g',
        'H' => 'h',
        'I' => 'i',
        'J' => 'j',
        'K' => 'k',
        'L' => 'l',
        'M' => 'm',
        'N' => 'n',
        'O' => 'o',
        'P' => 'p',
        'Q' => 'q',
        'R' => 'r',
        'S' => 's',
        'T' => 't',
        'U' => 'u',
        'V' => 'v',
        'W' => 'w',
        'X' => 'x',
        'Y' => 'y',
        'Z' => 'z',
        _ => c,
    }
}

/// ASCII lowercase of a string.
pub fn to_ascii_lowercase(s: &str) -> (r: String)
    ensures
        r@ == lower(s@),
{
    let len = s.unicode_len();
    let mut r = String::new();
    let mut i: usize = 0;
    while i < len
        invariant
            len == s@.len(),
            i <= len,
            r@ =~= lower(s@.take(i as int)),
        decreases len - i,
    {
        let c = s.get_char(i);
        push_char(&mut r, lower_char_exec(c));
        assert(r@ =~= lower(s@.take(i + 1)));
        i = i + 1;
    }
    assert(s@.take(len as int) =~= s@);
    r
}

/// The character sequences of a sequence of strings.
pub open spec fn string_views(v: Seq<String>) -> Seq<Seq<char>> {
    v.map_values(|s: String| s@)
}

/// The strings of `l` joined with `sep` between consecutive entries.
pub open spec fn joined(l: Seq<Seq<char>>, sep: Seq<char>) -> Seq<char>
    decreases l.len(),
{
    if l.len() == 0 {
        Seq::empty()
    } else if l.len() == 1 {
        l[0]
    } else {
        l[0] + sep + joined(l.drop_first(), sep)
    }
}

/// Appending one more string extends the join by a separator and that
/// string.
pub proof fn lemma_joined_push(l: Seq<Seq<char>>, sep: Seq<char>, x: Seq<char>)
    ensures
        joined(l.push(x), sep) == if l.len() == 0 {
            x
        } else {
            joined(l, sep) + sep + x
        },
    decreases l.len(),
{
    let e = l.push(x);
    if l.len() == 0 {
        assert(e.len() == 1);
        assert(e[0] == x);
    } else if l.len() == 1 {
        assert(e.drop_first() =~= seq![x]);
        assert(e[0] == l[0]);
        assert(joined(seq![x], sep) == x);
        assert(joined(e, sep) == l[0] + sep + x);
        assert(joined(l, sep) == l[0]);
    } else {
        assert(e.drop_first() =~= l.drop_first().push(x));
        lemma_joined_push(l.drop_first(), sep, x);
        assert(e[0] == l[0]);
        assert(joined(e, sep) == l[0] + sep + (joined(l.drop_first(), sep) + sep + x));
        assert(l[0] + sep + (joined(l.drop_first(), sep) + sep + x) =~= (l[0] + sep + joined(
            l.drop_first(),
            sep,
        )) + sep + x);
    }
}

/// Joins the strings of `v` with `sep` between consecutive entries.
pub fn join_strings(v: &Vec<String>, sep: &str) -> (r: String)
    ensures
        r@ == joined(string_views(v@), sep@),
{
    let ghost views = string_views(v@);
    let mut r = String::new();
    let mut i: usize = 0;
    while i < v.len()
        invariant
            views == v@.map_values(|s: String| s@),
            i <= v@.len(),
            r@ == joined(views.take(i as int), sep@),
        decreases v@.len() - i,
    {
        if i > 0 {
            r.append(sep);
        }
        r.append(v[i].as_str());
        proof {
            assert(views.take(i + 1) =~= views.take(i as int).push(views[i as int]));
            lemma_joined_push(views.take(i as int), sep@, views[i as int]);
        }
        i = i + 1;
    }
    assert(views.take(v@.len() as int) =~= views);
    r
}

/// The `n`th whitespace-delimited token of `line`, if present.
pub fn nth_token(line: &str, n: usize) -> (r: Option<String>)
    ensures
        match r {
            Some(t) => nth_token_of(line@, n as nat) == Some(t@),
            None => nth_token_of(line@, n as nat) is None,
        },
{
    let v = chars_of(line);
    assert(v@.skip(0) =~= line@);
    match nth_token_range(&v, 0, n) {
        None => None,
        Some((a, b)) => {
            let t = line.substring_char(a, b);
            Some(t.to_owned())
        },
    }
}

} // verus!
