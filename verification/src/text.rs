//! Character-level helpers shared by the whole crate.
//!
//! Strings are reasoned about through their view, a `Seq<char>`.
use vstd::prelude::*;

verus! {

broadcast use vstd::string::group_string_axioms;

/// Appends one character to a `String` by std's `String::push`; trusted to
/// leave the string's characters as they were, followed by `c`.
#[verifier::external_body]
pub(crate) fn push_char(s: &mut String, c: char)
    ensures
        final(s)@ == old(s)@.push(c),
{
    s.push(c);
}

/// The characters of `s`, in order.
pub fn chars_of(s: &str) -> (v: Vec<char>)
    ensures
        v@ == s@,
{
    let mut v: Vec<char> = Vec::new();
    for c in it: s.chars()
        invariant
            v@ == it.seq().take(it.index() as int),
            it.seq() == s@,
    {
        v.push(c);
    }
    v
}

/// A `String` holding exactly the characters of `v`.
pub fn string_of(v: &[char]) -> (s: String)
    ensures
        s@ == v@,
{
    let mut s = String::new();
    let mut i: usize = 0;
    while i < v.len()
        invariant
            i <= v@.len(),
            s@ == v@.take(i as int),
        decreases v@.len() - i,
    {
        push_char(&mut s, v[i]);
        i += 1;
        assert(s@ =~= v@.take(i as int));
    }
    assert(v@.take(i as int) =~= v@);
    s
}

/// A `String` holding the characters of `v` from `from` up to `to`.
pub fn string_of_range(v: &Vec<char>, from: usize, to: usize) -> (s: String)
    requires
        from <= to <= v@.len(),
    ensures
        s@ == v@.subrange(from as int, to as int),
{
    let mut s = String::new();
    let mut i: usize = from;
    while i < to
        invariant
            from <= i <= to,
            to <= v@.len(),
            s@ == v@.subrange(from as int, i as int),
        decreases to - i,
    {
        push_char(&mut s, v[i]);
        i += 1;
        assert(s@ =~= v@.subrange(from as int, i as int));
    }
    s
}

/// An owned copy of `s`.
pub fn owned(s: &str) -> (r: String)
    ensures
        r@ == s@,
{
    s.to_string()
}

/// `a` followed by `b`.
pub fn join2(a: &str, b: &str) -> (r: String)
    ensures
        r@ == a@ + b@,
{
    let av = chars_of(a);
    let bv = chars_of(b);
    let mut s = string_of(av.as_slice());
    let mut i: usize = 0;
    while i < bv.len()
        invariant
            i <= bv@.len(),
            bv@ == b@,
            s@ == a@ + b@.take(i as int),
        decreases bv@.len() - i,
    {
        push_char(&mut s, bv[i]);
        i += 1;
        assert(s@ =~= a@ + b@.take(i as int));
    }
    assert(b@.take(i as int) =~= b@);
    s
}

/// Whether two strings hold the same characters.
pub fn str_eq(a: &str, b: &str) -> (r: bool)
    ensures
        r == (a@ == b@),
{
    let av = chars_of(a);
    let bv = chars_of(b);
    chars_eq(&av, &bv)
}

/// Whether two character vectors are equal.
pub fn chars_eq(a: &Vec<char>, b: &Vec<char>) -> (r: bool)
    ensures
        r == (a@ == b@),
{
    if a.len() != b.len() {
        return false;
    }
    let mut i: usize = 0;
    while i < a.len()
        invariant
            i <= a@.len(),
            a@.len() == b@.len(),
            forall|k: int| 0 <= k < i ==> a@[k] == b@[k],
        decreases a@.len() - i,
    {
        if a[i] != b[i] {
            return false;
        }
        i += 1;
    }
    assert(a@ =~= b@);
    true
}

/*-- substrings ---------------------------------------------------------------*/

/// `q` occurs in `s` starting at index `i`.
pub open spec fn occurs_at(s: Seq<char>, q: Seq<char>, i: int) -> bool {
    0 <= i && i + q.len() <= s.len() && s.subrange(i, i + q.len()) == q
}

/// `q` occurs somewhere in `s` (std's `str::contains` with a string pattern).
pub open spec fn contains_seq(s: Seq<char>, q: Seq<char>) -> bool {
    exists|i: int| occurs_at(s, q, i)
}

/// Whether `q` occurs in `s` at index `i`.
pub fn occurs_at_exec(s: &Vec<char>, q: &Vec<char>, i: usize) -> (r: bool)
    ensures
        r == occurs_at(s@, q@, i as int),
{
    if i > s.len() || q.len() > s.len() - i {
        return false;
    }
    let mut j: usize = 0;
    while j < q.len()
        invariant
            j <= q@.len(),
            i + q.len() <= s.len(),
            forall|k: int| 0 <= k < j ==> s@[i + k] == q@[k],
        decreases q@.len() - j,
    {
        if s[i + j] != q[j] {
            assert(s@.subrange(i as int, i + q@.len())[j as int] != q@[j as int]);
            return false;
        }
        j += 1;
    }
    assert(s@.subrange(i as int, i + q@.len()) =~= q@);
    true
}

/// Whether `q` occurs somewhere in `s`.
pub fn contains_chars(s: &Vec<char>, q: &Vec<char>) -> (r: bool)
    ensures
        r == contains_seq(s@, q@),
{
    if q.len() > s.len() {
        assert(forall|i: int| !#[trigger] occurs_at(s@, q@, i));
        return false;
    }
    let last = s.len() - q.len();
    let mut i: usize = 0;
    loop
        invariant
            q@.len() <= s@.len(),
            last == s@.len() - q@.len(),
            i <= last,
            forall|k: int| 0 <= k < i ==> !#[trigger] occurs_at(s@, q@, k),
        ensures
            forall|k: int| 0 <= k <= last ==> !#[trigger] occurs_at(s@, q@, k),
        decreases last - i,
    {
        if occurs_at_exec(s, q, i) {
            return true;
        }
        if i == last {
            break;
        }
        i += 1;
    }
    assert(forall|k: int| !#[trigger] occurs_at(s@, q@, k));
    false
}

/// Whether `q` occurs somewhere in `s`.
pub fn str_contains(s: &str, q: &str) -> (r: bool)
    ensures
        r == contains_seq(s@, q@),
{
    let sv = chars_of(s);
    let qv = chars_of(q);
    contains_chars(&sv, &qv)
}

/// `s` begins with `p`.
pub open spec fn starts_with(s: Seq<char>, p: Seq<char>) -> bool {
    p.len() <= s.len() && s.subrange(0, p.len() as int) == p
}

/// `s` ends with `p`.
pub open spec fn ends_with(s: Seq<char>, p: Seq<char>) -> bool {
    p.len() <= s.len() && s.subrange(s.len() - p.len(), s.len() as int) == p
}

/// Whether `s` begins with `p`.
pub fn str_starts_with(s: &str, p: &str) -> (r: bool)
    ensures
        r == starts_with(s@, p@),
{
    let sv = chars_of(s);
    let pv = chars_of(p);
    occurs_at_exec(&sv, &pv, 0)
}

/// Whether `s` ends with `p`.
pub fn str_ends_with(s: &str, p: &str) -> (r: bool)
    ensures
        r == ends_with(s@, p@),
{
    let sv = chars_of(s);
    let pv = chars_of(p);
    if pv.len() > sv.len() {
        return false;
    }
    occurs_at_exec(&sv, &pv, sv.len() - pv.len())
}

} // verus!

verus! {

/*-- case ---------------------------------------------------------------------*/

/// The Unicode lower-case mapping of a string (std's `str::to_lowercase`).
pub uninterp spec fn lowercase(s: Seq<char>) -> Seq<char>;

/// Lower-cases `s` by std's `str::to_lowercase`; trusted only to give the
/// same result for the same characters, named `lowercase`. What that mapping
/// does to each character (Unicode's full lower-casing) is not stated.
#[verifier::external_body]
pub(crate) fn to_lowercase(s: &str) -> (r: String)
    ensures
        r@ == lowercase(s@),
{
    s.to_lowercase()
}

/// ASCII lower-casing of one character; every other character is unchanged.
pub open spec fn ascii_lower(c: char) -> char {
    if 'A' <= c && c <= 'Z' {
        ((c as u32) + 32) as char
    } else {
        c
    }
}

/// ASCII lower-casing of one character.
pub fn ascii_lower_exec(c: char) -> (r: char)
    ensures
        r == ascii_lower(c),
{
    if 'A' <= c && c <= 'Z' {
        ((c as u8) + 32) as char
    } else {
        c
    }
}

/// The two strings are equal up to ASCII case (std's `str::eq_ignore_ascii_case`).
pub open spec fn eq_ignore_ascii_case(a: Seq<char>, b: Seq<char>) -> bool {
    a.len() == b.len() && forall|i: int| 0 <= i < a.len() ==> ascii_lower(a[i]) == ascii_lower(b[i])
}

/// Whether two strings are equal up to ASCII case.
pub fn str_eq_ignore_ascii_case(a: &str, b: &str) -> (r: bool)
    ensures
        r == eq_ignore_ascii_case(a@, b@),
{
    let av = chars_of(a);
    let bv = chars_of(b);
    if av.len() != bv.len() {
        return false;
    }
    let mut i: usize = 0;
    while i < av.len()
        invariant
            i <= av@.len(),
            av@ == a@,
            bv@ == b@,
            av@.len() == bv@.len(),
            forall|k: int| 0 <= k < i ==> ascii_lower(a@[k]) == ascii_lower(b@[k]),
        decreases av@.len() - i,
    {
        if ascii_lower_exec(av[i]) != ascii_lower_exec(bv[i]) {
            return false;
        }
        i += 1;
    }
    true
}

/// ASCII lower-casing of a whole string (std's `str::to_ascii_lowercase`).
pub open spec fn ascii_lowercase(s: Seq<char>) -> Seq<char> {
    s.map_values(|c: char| ascii_lower(c))
}

/// ASCII lower-casing of a whole string.
pub fn to_ascii_lowercase(s: &str) -> (r: String)
    ensures
        r@ == ascii_lowercase(s@),
{
    let v = chars_of(s);
    let mut out: Vec<char> = Vec::new();
    let mut i: usize = 0;
    while i < v.len()
        invariant
            i <= v@.len(),
            v@ == s@,
            out@ == ascii_lowercase(s@.take(i as int)),
        decreases v@.len() - i,
    {
        out.push(ascii_lower_exec(v[i]));
        i += 1;
        assert(out@ =~= ascii_lowercase(s@.take(i as int)));
    }
    assert(s@.take(i as int) =~= s@);
    string_of(out.as_slice())
}

/*-- decimal numbers ----------------------------------------------------------*/

/// The character of decimal digit `d`.
pub open spec fn digit_char(d: nat) -> char {
    (('0' as int) + d) as char
}

/// Whether `c` is one of `0`..`9`.
pub open spec fn is_digit(c: char) -> bool {
    '0' <= c && c <= '9'
}

/// The value of a decimal digit.
pub open spec fn digit_value(c: char) -> nat {
    ((c as int) - ('0' as int)) as nat
}

/// Decimal representation of `n`, without leading zeros (std's `u64::to_string`).
pub open spec fn decimal(n: nat) -> Seq<char>
    decreases n,
{
    if n < 10 {
        seq![digit_char(n)]
    } else {
        decimal(n / 10).push(digit_char(n % 10))
    }
}

fn digit_exec(d: u64) -> (c: char)
    requires
        d < 10,
    ensures
        c == digit_char(d as nat),
{
    ((d as u8) + 48) as char
}

fn push_decimal(s: &mut String, n: u64)
    ensures
        final(s)@ == old(s)@ + decimal(n as nat),
    decreases n,
{
    if n >= 10 {
        push_decimal(s, n / 10);
    }
    push_char(s, digit_exec(n % 10));
    assert(final(s)@ =~= old(s)@ + decimal(n as nat));
}

/// Decimal representation of `n`.
pub fn u64_to_string(n: u64) -> (s: String)
    ensures
        s@ == decimal(n as nat),
{
    let mut s = String::new();
    push_decimal(&mut s, n);
    assert(s@ =~= decimal(n as nat));
    s
}

} // verus!

verus! {

/// Whether every character of `s` is a decimal digit.
pub open spec fn all_digits(s: Seq<char>) -> bool {
    forall|i: int| 0 <= i < s.len() ==> is_digit(#[trigger] s[i])
}

/// The value of a string of decimal digits.
pub open spec fn digits_value(s: Seq<char>) -> nat
    decreases s.len(),
{
    if s.len() == 0 {
        0
    } else {
        digits_value(s.drop_last()) * 10 + digit_value(s.last())
    }
}

/// std's `FromStr` for an unsigned integer type whose largest value is `max`:
/// an optional leading `+`, then one or more decimal digits, with a value that fits.
pub open spec fn parse_unsigned(s: Seq<char>, max: nat) -> Option<nat> {
    let body = if s.len() > 0 && s[0] == '+' {
        s.drop_first()
    } else {
        s
    };
    if body.len() > 0 && all_digits(body) && digits_value(body) <= max {
        Some(digits_value(body))
    } else {
        None
    }
}

proof fn lemma_digits_value_take(s: Seq<char>, i: int)
    requires
        0 <= i < s.len(),
    ensures
        digits_value(s.take(i + 1)) == digits_value(s.take(i)) * 10 + digit_value(s[i]),
{
    assert(s.take(i + 1).drop_last() =~= s.take(i));
}

proof fn lemma_digits_value_mono(s: Seq<char>, i: int, j: int)
    requires
        0 <= i <= j <= s.len(),
    ensures
        digits_value(s.take(i)) <= digits_value(s.take(j)),
    decreases j - i,
{
    if i < j {
        lemma_digits_value_mono(s, i, j - 1);
        lemma_digits_value_take(s, j - 1);
    }
}

proof fn lemma_div_bound(acc: int, d: int, max: int)
    requires
        0 <= d <= max,
        acc > (max - d) / 10,
    ensures
        acc * 10 + d > max,
{
    assert(acc * 10 + d > max) by (nonlinear_arith)
        requires
            0 <= d <= max,
            acc > (max - d) / 10,
    ;
}

proof fn lemma_div_bound_le(acc: int, d: int, max: int)
    requires
        0 <= d <= max,
        0 <= acc <= (max - d) / 10,
    ensures
        acc * 10 + d <= max,
{
    assert(acc * 10 + d <= max) by (nonlinear_arith)
        requires
            0 <= d <= max,
            0 <= acc <= (max - d) / 10,
    ;
}

/// Parses `s` as an unsigned integer no larger than `max`, as std's `FromStr` does.
pub fn parse_unsigned_exec(s: &str, max: u64) -> (r: Option<u64>)
    ensures
        match r {
            Some(v) => parse_unsigned(s@, max as nat) == Some(v as nat),
            None => parse_unsigned(s@, max as nat) is None,
        },
{
    let v = chars_of(s);
    let ghost body = if s@.len() > 0 && s@[0] == '+' {
        s@.drop_first()
    } else {
        s@
    };
    let start: usize = if v.len() > 0 && v[0] == '+' {
        1
    } else {
        0
    };
    assert(body =~= v@.skip(start as int));
    if start >= v.len() {
        return None;
    }
    let mut acc: u64 = 0;
    let mut i: usize = start;
    while i < v.len()
        invariant
            start <= i <= v@.len(),
            v@ == s@,
            body == v@.skip(start as int),
            body == (if s@.len() > 0 && s@[0] == '+' {
                s@.drop_first()
            } else {
                s@
            }),
            acc as nat == digits_value(body.take(i - start)),
            all_digits(body.take(i - start)),
            acc <= max,
        decreases v@.len() - i,
    {
        let c = v[i];
        if !('0' <= c && c <= '9') {
            assert(body[i - start] == c);
            assert(!is_digit(body[i - start]));
            assert(!all_digits(body));
            return None;
        }
        let d: u64 = (c as u64) - 48;
        assert(d as nat == digit_value(c));
        proof {
            lemma_digits_value_take(body, i - start);
        }
        assert(body.take(i - start + 1) =~= body.take(i - start).push(c));
        if d > max || acc > (max - d) / 10 {
            proof {
                if d <= max {
                    lemma_div_bound(acc as int, d as int, max as int);
                }
                lemma_digits_value_mono(body, i - start + 1, body.len() as int);
                assert(body.take(body.len() as int) =~= body);
            }
            return None;
        }
        proof {
            lemma_div_bound_le(acc as int, d as int, max as int);
        }
        acc = acc * 10 + d;
        i += 1;
    }
    assert(body.take(i - start) =~= body);
    Some(acc)
}

/*-- whitespace ---------------------------------------------------------------*/

/// Unicode `White_Space` (std's `char::is_whitespace`).
pub open spec fn is_whitespace(c: char) -> bool {
    ('\u{9}' <= c && c <= '\u{d}') || c == ' ' || c == '\u{85}' || c == '\u{a0}' || c == '\u{1680}'
        || ('\u{2000}' <= c && c <= '\u{200a}') || c == '\u{2028}' || c == '\u{2029}' || c
        == '\u{202f}' || c == '\u{205f}' || c == '\u{3000}'
}

/// Whether `c` is Unicode whitespace.
pub fn is_whitespace_exec(c: char) -> (r: bool)
    ensures
        r == is_whitespace(c),
{
    ('\u{9}' <= c && c <= '\u{d}') || c == ' ' || c == '\u{85}' || c == '\u{a0}' || c == '\u{1680}'
        || ('\u{2000}' <= c && c <= '\u{200a}') || c == '\u{2028}' || c == '\u{2029}' || c
        == '\u{202f}' || c == '\u{205f}' || c == '\u{3000}'
}

/// `s` without leading whitespace.
pub open spec fn trim_start(s: Seq<char>) -> Seq<char>
    decreases s.len(),
{
    if s.len() > 0 && is_whitespace(s[0]) {
        trim_start(s.drop_first())
    } else {
        s
    }
}

/// `s` without trailing whitespace.
pub open spec fn trim_end(s: Seq<char>) -> Seq<char>
    decreases s.len(),
{
    if s.len() > 0 && is_whitespace(s.last()) {
        trim_end(s.drop_last())
    } else {
        s
    }
}

/// `s` without leading and trailing whitespace (std's `str::trim`).
pub open spec fn trim(s: Seq<char>) -> Seq<char> {
    trim_end(trim_start(s))
}

proof fn lemma_trim_start_skip(s: Seq<char>, i: int)
    requires
        0 <= i <= s.len(),
        forall|k: int| 0 <= k < i ==> is_whitespace(#[trigger] s[k]),
    ensures
        trim_start(s) == trim_start(s.skip(i)),
    decreases i,
{
    if i > 0 {
        assert(is_whitespace(s[0]));
        assert(s.drop_first().skip(i - 1) =~= s.skip(i));
        assert forall|k: int| 0 <= k < i - 1 implies is_whitespace(#[trigger] s.drop_first()[k]) by {
            assert(s.drop_first()[k] == s[k + 1]);
        }
        lemma_trim_start_skip(s.drop_first(), i - 1);
    } else {
        assert(s.skip(0) =~= s);
    }
}

proof fn lemma_trim_end_take(s: Seq<char>, j: int)
    requires
        0 <= j <= s.len(),
        forall|k: int| j <= k < s.len() ==> is_whitespace(#[trigger] s[k]),
    ensures
        trim_end(s) == trim_end(s.take(j)),
    decreases s.len() - j,
{
    if j < s.len() {
        assert(s.drop_last().take(j) =~= s.take(j));
        lemma_trim_end_take(s.drop_last(), j);
    } else {
        assert(s.take(j) =~= s);
    }
}

/// `s` without leading and trailing whitespace.
pub fn str_trim(s: &str) -> (r: String)
    ensures
        r@ == trim(s@),
{
    let v = chars_of(s);
    let mut i: usize = 0;
    while i < v.len() && is_whitespace_exec(v[i])
        invariant
            i <= v@.len(),
            v@ == s@,
            forall|k: int| 0 <= k < i ==> is_whitespace(#[trigger] s@[k]),
        decreases v@.len() - i,
    {
        i += 1;
    }
    proof {
        lemma_trim_start_skip(s@, i as int);
    }
    let ghost t = s@.skip(i as int);
    assert(trim_start(t) == t);
    let mut j: usize = v.len();
    while j > i && is_whitespace_exec(v[j - 1])
        invariant
            i <= j <= v@.len(),
            v@ == s@,
            forall|k: int| j <= k < v@.len() ==> is_whitespace(#[trigger] s@[k]),
        decreases j,
    {
        j -= 1;
    }
    proof {
        assert forall|k: int| j - i <= k < t.len() implies is_whitespace(#[trigger] t[k]) by {
            assert(t[k] == s@[k + i]);
        }
        lemma_trim_end_take(t, j - i);
        let u = t.take(j - i);
        if u.len() > 0 {
            assert(u.last() == s@[j - 1]);
        }
        assert(trim_end(u) == u);
        assert(u =~= v@.subrange(i as int, j as int));
    }
    let mut out: Vec<char> = Vec::new();
    let mut k: usize = i;
    while k < j
        invariant
            i <= k <= j,
            j <= v@.len(),
            out@ == v@.subrange(i as int, k as int),
        decreases j - k,
    {
        out.push(v[k]);
        k += 1;
        assert(out@ =~= v@.subrange(i as int, k as int));
    }
    string_of(out.as_slice())
}

} // verus!

verus! {

/*-- replacing ----------------------------------------------------------------*/

/// Every non-overlapping occurrence of `pat` in `s`, scanned from the left,
/// replaced by `rep` (std's `str::replace` for a non-empty pattern).
pub open spec fn replace_all(s: Seq<char>, pat: Seq<char>, rep: Seq<char>) -> Seq<char>
    decreases s.len(),
{
    if pat.len() == 0 || s.len() < pat.len() {
        s
    } else if s.take(pat.len() as int) == pat {
        rep + replace_all(s.skip(pat.len() as int), pat, rep)
    } else {
        seq![s[0]] + replace_all(s.drop_first(), pat, rep)
    }
}

/// `s` with every occurrence of the non-empty `pat` replaced by `rep`.
pub fn str_replace(s: &str, pat: &str, rep: &str) -> (r: String)
    requires
        pat@.len() > 0,
    ensures
        r@ == replace_all(s@, pat@, rep@),
{
    let sv = chars_of(s);
    let pv = chars_of(pat);
    let rv = chars_of(rep);
    let mut out: Vec<char> = Vec::new();
    let mut i: usize = 0;
    assert(s@.skip(0) =~= s@);
    assert(out@ + replace_all(s@, pat@, rep@) =~= replace_all(s@, pat@, rep@));
    while i < sv.len()
        invariant
            i <= sv@.len(),
            sv@ == s@,
            pv@ == pat@,
            rv@ == rep@,
            pat@.len() > 0,
            out@ + replace_all(s@.skip(i as int), pat@, rep@) == replace_all(s@, pat@, rep@),
        decreases sv@.len() - i,
    {
        let ghost rest = s@.skip(i as int);
        if occurs_at_exec(&sv, &pv, i) {
            assert(rest.take(pat@.len() as int) =~= s@.subrange(i as int, i + pat@.len()));
            assert(rest.skip(pat@.len() as int) =~= s@.skip(i + pat@.len()));
            let mut j: usize = 0;
            let ghost out0 = out@;
            while j < rv.len()
                invariant
                    j <= rv@.len(),
                    out@ == out0 + rv@.take(j as int),
                decreases rv@.len() - j,
            {
                out.push(rv[j]);
                j += 1;
                assert(out@ =~= out0 + rv@.take(j as int));
            }
            assert(rv@.take(j as int) =~= rv@);
            assert(out0 + (rep@ + replace_all(s@.skip(i + pat@.len()), pat@, rep@)) =~= out@
                + replace_all(s@.skip(i + pat@.len()), pat@, rep@));
            i += pv.len();
        } else {
            proof {
                if rest.len() >= pat@.len() {
                    assert(rest.take(pat@.len() as int) =~= s@.subrange(i as int, i + pat@.len()));
                }
            }
            assert(rest.drop_first() =~= s@.skip(i + 1));
            let ghost out0 = out@;
            out.push(sv[i]);
            assert(out0 + (seq![s@[i as int]] + replace_all(s@.skip(i + 1), pat@, rep@)) =~= out@
                + replace_all(s@.skip(i + 1), pat@, rep@));
            i += 1;
        }
    }
    assert(s@.skip(i as int) =~= Seq::<char>::empty());
    assert(out@ + Seq::<char>::empty() =~= out@);
    string_of(out.as_slice())
}

/*-- prefixes and suffixes ----------------------------------------------------*/

/// `s` with its suffix `suf` removed, when it has one (std's `str::strip_suffix`).
pub open spec fn strip_suffix(s: Seq<char>, suf: Seq<char>) -> Option<Seq<char>> {
    if ends_with(s, suf) {
        Some(s.take(s.len() - suf.len()))
    } else {
        None
    }
}

/// `s` with its suffix `suf` removed, when it has one.
pub fn str_strip_suffix(s: &str, suf: &str) -> (r: Option<String>)
    ensures
        match r {
            Some(t) => strip_suffix(s@, suf@) == Some(t@),
            None => strip_suffix(s@, suf@) is None,
        },
{
    if str_ends_with(s, suf) {
        let v = chars_of(s);
        let n = v.len() - chars_of(suf).len();
        let t = string_of_range(&v, 0, n);
        proof {
            assert(v@.take(n as int) =~= s@.take(s@.len() - suf@.len()));
        }
        Some(t)
    } else {
        None
    }
}

/// `s` with its prefix `pre` removed, when it has one (std's `str::strip_prefix`).
pub open spec fn strip_prefix(s: Seq<char>, pre: Seq<char>) -> Option<Seq<char>> {
    if starts_with(s, pre) {
        Some(s.skip(pre.len() as int))
    } else {
        None
    }
}

/// `s` without any trailing copies of `c` (std's `str::trim_end_matches` with a `char`).
pub open spec fn trim_end_char(s: Seq<char>, c: char) -> Seq<char>
    decreases s.len(),
{
    if s.len() > 0 && s.last() == c {
        trim_end_char(s.drop_last(), c)
    } else {
        s
    }
}

proof fn lemma_trim_end_char_take(s: Seq<char>, c: char, j: int)
    requires
        0 <= j <= s.len(),
        forall|k: int| j <= k < s.len() ==> #[trigger] s[k] == c,
    ensures
        trim_end_char(s, c) == trim_end_char(s.take(j), c),
    decreases s.len() - j,
{
    if j < s.len() {
        assert(s.drop_last().take(j) =~= s.take(j));
        lemma_trim_end_char_take(s.drop_last(), c, j);
    } else {
        assert(s.take(j) =~= s);
    }
}

/// `s` without any trailing copies of `c`.
pub fn str_trim_end_char(s: &str, c: char) -> (r: String)
    ensures
        r@ == trim_end_char(s@, c),
{
    let v = chars_of(s);
    let mut j: usize = v.len();
    while j > 0 && v[j - 1] == c
        invariant
            j <= v@.len(),
            v@ == s@,
            forall|k: int| j <= k < v@.len() ==> #[trigger] s@[k] == c,
        decreases j,
    {
        j -= 1;
    }
    proof {
        lemma_trim_end_char_take(s@, c, j as int);
        let u = s@.take(j as int);
        if u.len() > 0 {
            assert(u.last() == s@[j - 1]);
        }
        assert(trim_end_char(u, c) == u);
        assert(u =~= v@.take(j as int));
    }
    string_of_range(&v, 0, j)
}

} // verus!

verus! {

/// The character sequences of a sequence of strings.
pub open spec fn string_views(s: Seq<String>) -> Seq<Seq<char>> {
    Seq::new(s.len(), |i: int| s[i]@)
}

/// The character sequences of a sequence of string slices.
pub open spec fn str_views(s: Seq<&str>) -> Seq<Seq<char>> {
    Seq::new(s.len(), |i: int| s[i]@)
}

/// The values behind a sequence of references.
pub open spec fn deref_seq<T>(s: Seq<&T>) -> Seq<T> {
    Seq::new(s.len(), |i: int| *s[i])
}

} // verus!

verus! {

/// Length and elements of `deref_seq`.
pub broadcast proof fn lemma_deref_seq<T>(s: Seq<&T>)
    ensures
        #[trigger] deref_seq(s).len() == s.len(),
        forall|k: int| 0 <= k < s.len() ==> #[trigger] deref_seq(s)[k] == *s[k],
{
}

/// Length and elements of `string_views`.
pub broadcast proof fn lemma_string_views(s: Seq<String>)
    ensures
        #[trigger] string_views(s).len() == s.len(),
        forall|k: int| 0 <= k < s.len() ==> #[trigger] string_views(s)[k] == s[k]@,
{
}

/// Length and elements of `str_views`.
pub broadcast proof fn lemma_str_views(s: Seq<&str>)
    ensures
        #[trigger] str_views(s).len() == s.len(),
        forall|k: int| 0 <= k < s.len() ==> #[trigger] str_views(s)[k] == s[k]@,
{
}

/// The facts about the view helpers.
pub broadcast group group_views {
    lemma_deref_seq,
    lemma_string_views,
    lemma_str_views,
}


/// The two strings, owned, in order.
pub fn strings2(a: &str, b: &str) -> (v: Vec<String>)
    ensures
        string_views(v@) == seq![a@, b@],
{
    let v = vec![a.to_string(), b.to_string()];
    assert(string_views(v@) =~= seq![a@, b@]);
    v
}

/// The three strings, owned, in order.
pub fn strings3(a: &str, b: &str, c: &str) -> (v: Vec<String>)
    ensures
        string_views(v@) == seq![a@, b@, c@],
{
    let v = vec![a.to_string(), b.to_string(), c.to_string()];
    assert(string_views(v@) =~= seq![a@, b@, c@]);
    v
}

/// The four strings, owned, in order.
pub fn strings4(a: &str, b: &str, c: &str, d: &str) -> (v: Vec<String>)
    ensures
        string_views(v@) == seq![a@, b@, c@, d@],
{
    let v = vec![a.to_string(), b.to_string(), c.to_string(), d.to_string()];
    assert(string_views(v@) =~= seq![a@, b@, c@, d@]);
    v
}


/// Index of the first string of `v` equal to `s`, if any.
pub fn position_of(v: &Vec<String>, s: &str) -> (r: Option<usize>)
    ensures
        match r {
            Some(i) => i < v@.len() && v@[i as int]@ == s@ && forall|j: int|
                0 <= j < i ==> #[trigger] v@[j]@ != s@,
            None => !string_views(v@).contains(s@),
        },
{
    let mut i: usize = 0;
    while i < v.len()
        invariant
            i <= v@.len(),
            forall|j: int| 0 <= j < i ==> #[trigger] v@[j]@ != s@,
        decreases v@.len() - i,
    {
        if str_eq(v[i].as_str(), s) {
            return Some(i);
        }
        i += 1;
    }
    proof {
        if string_views(v@).contains(s@) {
            let k = choose|k: int| 0 <= k < string_views(v@).len() && string_views(v@)[k] == s@;
            assert(v@[k]@ == s@);
        }
    }
    None
}

/// Whether some string of `v` equals `s`.
pub fn contains_string(v: &Vec<String>, s: &str) -> (b: bool)
    ensures
        b == string_views(v@).contains(s@),
{
    match position_of(v, s) {
        Some(i) => {
            assert(string_views(v@)[i as int] == s@);
            true
        },
        None => false,
    }
}


/*-- lines ---------------------------------------------------------------------------*/

/// `s` cut at every `sep` (the separators dropped): one more piece than
/// there are separators (std's `str::split` with a `char`).
pub open spec fn split_on(s: Seq<char>, sep: char) -> Seq<Seq<char>>
    decreases s.len(),
{
    if s.len() == 0 {
        seq![Seq::<char>::empty()]
    } else {
        let p = split_on(s.drop_last(), sep);
        if s.last() == sep {
            p.push(Seq::empty())
        } else {
            p.update(p.len() - 1, p.last().push(s.last()))
        }
    }
}

/// `s` cut at every `'\n'`.
pub open spec fn split_nl(s: Seq<char>) -> Seq<Seq<char>> {
    split_on(s, '\n')
}

/// Splitting always gives at least one piece.
pub proof fn lemma_split_on_len(s: Seq<char>, sep: char)
    ensures
        split_on(s, sep).len() >= 1,
    decreases s.len(),
{
    if s.len() > 0 {
        lemma_split_on_len(s.drop_last(), sep);
    }
}

/// The pieces of `s` between the `sep` characters.
pub fn str_split_on(s: &str, sep: char) -> (r: Vec<String>)
    ensures
        string_views(r@) == split_on(s@, sep),
{
    let v = chars_of(s);
    let mut done: Vec<String> = Vec::new();
    let mut cur: Vec<char> = Vec::new();
    let mut i: usize = 0;
    while i < v.len()
        invariant
            i <= v@.len(),
            v@ == s@,
            split_on(s@.take(i as int), sep).len() == done@.len() + 1,
            forall|j: int| 0 <= j < done@.len() ==> #[trigger] done@[j]@ == split_on(s@.take(i as int), sep)[j],
            cur@ == split_on(s@.take(i as int), sep).last(),
        decreases v@.len() - i,
    {
        let c = v[i];
        let ghost pre = s@.take(i as int);
        proof {
            assert(s@.take(i + 1).drop_last() =~= pre);
            assert(s@.take(i + 1).last() == c);
            lemma_split_on_len(pre, sep);
        }
        if c == sep {
            let ghost before = done@;
            done.push(string_of(cur.as_slice()));
            cur = Vec::new();
            proof {
                assert forall|j: int| 0 <= j < done@.len() implies #[trigger] done@[j]@ == split_on(s@.take(i + 1), sep)[j] by {
                    if j < before.len() {
                        assert(done@[j] == before[j]);
                    }
                }
                assert(cur@ =~= Seq::<char>::empty());
            }
        } else {
            cur.push(c);
        }
        i += 1;
    }
    proof {
        assert(s@.take(i as int) =~= s@);
        lemma_split_on_len(s@, sep);
    }
    done.push(string_of(cur.as_slice()));
    assert(string_views(done@) =~= split_on(s@, sep));
    done
}

/// A line without the `'\r'` that ended it, if it had one.
pub open spec fn strip_cr(line: Seq<char>) -> Seq<char> {
    if line.len() > 0 && line.last() == '\r' {
        line.drop_last()
    } else {
        line
    }
}

/// The lines of `s` as std's `str::lines` gives them: cut at each `'\n'`, a
/// `'\r'` right before a `'\n'` dropped, and no empty last line after a final `'\n'`.
pub open spec fn lines(s: Seq<char>) -> Seq<Seq<char>> {
    let parts = split_nl(s);
    let k = parts.len() - 1;
    let ended = Seq::new(k as nat, |i: int| strip_cr(parts[i]));
    if parts[k].len() == 0 {
        ended
    } else {
        ended.push(parts[k])
    }
}

proof fn lemma_split_nl_len(s: Seq<char>)
    ensures
        split_nl(s).len() >= 1,
{
    lemma_split_on_len(s, '\n');
}

/// A line without the `'\r'` that ended it, if it had one.
fn strip_cr_exec(line: Vec<char>) -> (r: String)
    ensures
        r@ == strip_cr(line@),
{
    let n = line.len();
    if n > 0 && line[n - 1] == '\r' {
        let r = string_of(line.as_slice());
        let v = chars_of(r.as_str());
        let t = string_of_range(&v, 0, n - 1);
        assert(v@.subrange(0, n - 1) =~= line@.drop_last());
        t
    } else {
        string_of(line.as_slice())
    }
}

/// The lines of `s`, as std's `str::lines` gives them.
pub fn str_lines(s: &str) -> (r: Vec<String>)
    ensures
        string_views(r@) == lines(s@),
{
    let v = chars_of(s);
    let mut done: Vec<String> = Vec::new();
    let mut cur: Vec<char> = Vec::new();
    let mut i: usize = 0;
    while i < v.len()
        invariant
            i <= v@.len(),
            v@ == s@,
            split_nl(s@.take(i as int)).len() == done@.len() + 1,
            forall|j: int| 0 <= j < done@.len() ==> #[trigger] done@[j]@ == strip_cr(split_nl(s@.take(i as int))[j]),
            cur@ == split_nl(s@.take(i as int)).last(),
        decreases v@.len() - i,
    {
        let c = v[i];
        let ghost pre = s@.take(i as int);
        proof {
            assert(s@.take(i + 1).drop_last() =~= pre);
            assert(s@.take(i + 1).last() == c);
            lemma_split_nl_len(pre);
        }
        if c == '\n' {
            let ghost before = done@;
            let line = strip_cr_exec(cur);
            done.push(line);
            cur = Vec::new();
            proof {
                let p = split_nl(pre);
                assert(split_nl(s@.take(i + 1)) == p.push(Seq::empty()));
                assert forall|j: int| 0 <= j < done@.len() implies #[trigger] done@[j]@ == strip_cr(split_nl(s@.take(i + 1))[j]) by {
                    if j < before.len() {
                        assert(done@[j] == before[j]);
                    }
                }
                assert(cur@ =~= Seq::<char>::empty());
            }
        } else {
            cur.push(c);
            proof {
                let p = split_nl(pre);
                assert(split_nl(s@.take(i + 1)) == p.update(p.len() - 1, p.last().push(c)));
            }
        }
        i += 1;
    }
    proof {
        assert(s@.take(i as int) =~= s@);
        lemma_split_nl_len(s@);
    }
    if cur.len() > 0 {
        let last = string_of(cur.as_slice());
        done.push(last);
    }
    proof {
        let parts = split_nl(s@);
        let k = parts.len() - 1;
        let ended = Seq::new(k as nat, |i: int| strip_cr(parts[i]));
        if parts[k].len() == 0 {
            assert(string_views(done@) =~= ended);
        } else {
            assert(string_views(done@) =~= ended.push(parts[k]));
        }
    }
    done
}


/// The items with `sep` between each two (std's `join` on a slice of strings).
pub open spec fn joined(items: Seq<Seq<char>>, sep: Seq<char>) -> Seq<char>
    decreases items.len(),
{
    if items.len() == 0 {
        Seq::empty()
    } else if items.len() == 1 {
        items[0]
    } else {
        joined(items.drop_last(), sep) + sep + items.last()
    }
}

/// The strings of `items` with `sep` between each two.
pub fn str_join(items: &Vec<String>, sep: &str) -> (r: String)
    ensures
        r@ == joined(string_views(items@), sep@),
{
    let ghost iv = string_views(items@);
    let mut out = String::new();
    let mut i: usize = 0;
    assert(iv.take(0) =~= Seq::<Seq<char>>::empty());
    while i < items.len()
        invariant
            i <= items@.len(),
            iv == string_views(items@),
            out@ == joined(iv.take(i as int), sep@),
        decreases items@.len() - i,
    {
        proof {
            let t = iv.take(i + 1);
            assert(t.drop_last() =~= iv.take(i as int));
            assert(t.last() == items@[i as int]@);
        }
        if i > 0 {
            out = join2(out.as_str(), sep);
        }
        out = join2(out.as_str(), items[i].as_str());
        proof {
            let t = iv.take(i + 1);
            if i == 0 {
                assert(t.len() == 1);
                assert(out@ =~= t[0]);
            }
        }
        i += 1;
    }
    assert(iv.take(i as int) =~= iv);
    out
}
/// The lines `ls`, each followed by a newline.
pub open spec fn unlines(ls: Seq<Seq<char>>) -> Seq<char>
    decreases ls.len(),
{
    if ls.len() == 0 {
        Seq::empty()
    } else {
        unlines(ls.drop_last()) + ls.last() + seq!['\n']
    }
}

/// A text that `lines` gives back unchanged once newlines are put after it:
/// no newline inside and no carriage return at its end.
pub open spec fn plain_line(l: Seq<char>) -> bool {
    &&& !l.contains('\n')
    &&& (l.len() == 0 || l.last() != '\r')
}

/// Joining two runs of lines joins their texts.
pub proof fn lemma_unlines_append(a: Seq<Seq<char>>, b: Seq<Seq<char>>)
    ensures
        unlines(a + b) == unlines(a) + unlines(b),
    decreases b.len(),
{
    if b.len() == 0 {
        assert(a + b =~= a);
        assert(unlines(a) + unlines(b) =~= unlines(a));
    } else {
        assert((a + b).drop_last() =~= a + b.drop_last());
        assert((a + b).last() == b.last());
        lemma_unlines_append(a, b.drop_last());
        assert(unlines(a + b) =~= unlines(a) + unlines(b));
    }
}

/// The text of lines is empty or ends with a newline.
pub proof fn lemma_unlines_ends(ls: Seq<Seq<char>>)
    ensures
        unlines(ls).len() == 0 || unlines(ls).last() == '\n',
{
    if ls.len() > 0 {
        assert(unlines(ls).last() == '\n');
    }
}

proof fn lemma_split_on_append(a: Seq<char>, b: Seq<char>, sep: char)
    requires
        !b.contains(sep),
    ensures
        split_on(a + b, sep) == split_on(a, sep).update(
            split_on(a, sep).len() - 1,
            split_on(a, sep).last() + b,
        ),
    decreases b.len(),
{
    lemma_split_on_len(a, sep);
    let p = split_on(a, sep);
    if b.len() == 0 {
        assert(a + b =~= a);
        assert(p.last() + b =~= p.last());
        assert(p.update(p.len() - 1, p.last()) =~= p);
    } else {
        let b0 = b.drop_last();
        assert(!b0.contains(sep)) by {
            if b0.contains(sep) {
                let k = choose|k: int| 0 <= k < b0.len() && b0[k] == sep;
                assert(b[k] == sep);
            }
        }
        assert(b.last() != sep) by {
            assert(b[b.len() - 1] == b.last());
        }
        lemma_split_on_append(a, b0, sep);
        assert((a + b).drop_last() =~= a + b0);
        assert((a + b).last() == b.last());
        lemma_split_on_len(a + b0, sep);
        let q = split_on(a + b0, sep);
        assert(q.last() == p.last() + b0);
        assert(q.last().push(b.last()) =~= p.last() + b);
        assert(q.update(q.len() - 1, q.last().push(b.last())) =~= p.update(p.len() - 1, p.last() + b));
    }
}

proof fn lemma_split_unlines(ls: Seq<Seq<char>>)
    requires
        forall|i: int| 0 <= i < ls.len() ==> !(#[trigger] ls[i]).contains('\n'),
    ensures
        split_on(unlines(ls), '\n') == ls.push(Seq::<char>::empty()),
    decreases ls.len(),
{
    if ls.len() == 0 {
        assert(split_on(Seq::<char>::empty(), '\n') =~= seq![Seq::<char>::empty()]);
        assert(ls.push(Seq::<char>::empty()) =~= seq![Seq::<char>::empty()]);
    } else {
        let init = ls.drop_last();
        let l = ls.last();
        assert forall|i: int| 0 <= i < init.len() implies !(#[trigger] init[i]).contains('\n') by {
            assert(init[i] == ls[i]);
        }
        lemma_split_unlines(init);
        assert(!l.contains('\n')) by {
            assert(ls[ls.len() - 1] == l);
        }
        lemma_split_on_append(unlines(init), l, '\n');
        let t = unlines(init) + l;
        assert(unlines(ls) =~= t.push('\n'));
        assert(t.push('\n').drop_last() =~= t);
        let pt = split_on(t, '\n');
        assert(pt =~= init.push(l));
        assert(split_on(t.push('\n'), '\n') == pt.push(Seq::<char>::empty()));
        assert(init.push(l) =~= ls);
    }
}

/// Lines written out, each followed by a newline, read back as the same lines.
pub proof fn lemma_lines_unlines(ls: Seq<Seq<char>>)
    requires
        forall|i: int| 0 <= i < ls.len() ==> plain_line(#[trigger] ls[i]),
    ensures
        lines(unlines(ls)) == ls,
{
    lemma_split_unlines(ls);
    let parts = split_nl(unlines(ls));
    assert(parts == ls.push(Seq::<char>::empty()));
    let k = parts.len() - 1;
    assert(parts[k].len() == 0);
    assert forall|i: int| 0 <= i < ls.len() implies strip_cr(parts[i]) == ls[i] by {
        assert(parts[i] == ls[i]);
        assert(plain_line(ls[i]));
    }
    assert(Seq::new(k as nat, |i: int| strip_cr(parts[i])) =~= ls);
}

/// Splitting a text whose first part ends at a separator: the pieces of the
/// first part, then those of the second.
proof fn lemma_split_concat(a: Seq<char>, b: Seq<char>, sep: char)
    requires
        split_on(a, sep).last().len() == 0,
    ensures
        split_on(a + b, sep) == split_on(a, sep).drop_last() + split_on(b, sep),
    decreases b.len(),
{
    lemma_split_on_len(a, sep);
    lemma_split_on_len(b, sep);
    let pa = split_on(a, sep);
    if b.len() == 0 {
        assert(a + b =~= a);
        assert(split_on(b, sep) =~= seq![Seq::<char>::empty()]);
        assert(pa.last() =~= Seq::<char>::empty());
        assert(pa.drop_last() + split_on(b, sep) =~= pa);
    } else {
        let b0 = b.drop_last();
        lemma_split_concat(a, b0, sep);
        lemma_split_on_len(b0, sep);
        assert((a + b).drop_last() =~= a + b0);
        assert((a + b).last() == b.last());
        let q = split_on(a + b0, sep);
        let pb0 = split_on(b0, sep);
        if b.last() == sep {
            assert(q.push(Seq::<char>::empty()) =~= pa.drop_last() + pb0.push(Seq::<char>::empty()));
        } else {
            assert(q.last() == pb0.last());
            assert(q.update(q.len() - 1, q.last().push(b.last())) =~= pa.drop_last() + pb0.update(
                pb0.len() - 1,
                pb0.last().push(b.last()),
            ));
        }
    }
}

/// A text is empty or ends with a newline exactly when its last piece between newlines is empty.
proof fn lemma_split_last_empty(a: Seq<char>)
    requires
        a.len() == 0 || a.last() == '\n',
    ensures
        split_on(a, '\n').last().len() == 0,
{
    if a.len() > 0 {
        lemma_split_on_len(a.drop_last(), '\n');
    }
}

/// The lines of two texts, the first empty or ended by a newline, are the
/// lines of the first followed by those of the second.
pub proof fn lemma_lines_concat(a: Seq<char>, b: Seq<char>)
    requires
        a.len() == 0 || a.last() == '\n',
    ensures
        lines(a + b) == lines(a) + lines(b),
{
    lemma_split_last_empty(a);
    lemma_split_concat(a, b, '\n');
    lemma_split_nl_len(a);
    lemma_split_nl_len(b);
    let pa = split_nl(a);
    let pb = split_nl(b);
    let ps = split_nl(a + b);
    assert(ps == pa.drop_last() + pb);
    assert(lines(a) =~= Seq::new((pa.len() - 1) as nat, |i: int| strip_cr(pa[i])));
    let kb = pb.len() - 1;
    let k = ps.len() - 1;
    assert(ps[k] == pb[kb]);
    let eb = Seq::new(kb as nat, |i: int| strip_cr(pb[i]));
    let es = Seq::new(k as nat, |i: int| strip_cr(ps[i]));
    assert(es =~= lines(a) + eb);
    if pb[kb].len() == 0 {
        assert(lines(a + b) =~= lines(a) + lines(b));
    } else {
        assert(lines(a + b) =~= lines(a) + lines(b));
    }
}

/// The pieces between separators hold no separator.
pub proof fn lemma_split_on_pieces(s: Seq<char>, sep: char)
    ensures
        forall|i: int| 0 <= i < split_on(s, sep).len() ==> !(#[trigger] split_on(s, sep)[i]).contains(sep),
    decreases s.len(),
{
    lemma_split_on_len(s, sep);
    if s.len() > 0 {
        lemma_split_on_pieces(s.drop_last(), sep);
        lemma_split_on_len(s.drop_last(), sep);
        let p = split_on(s.drop_last(), sep);
        let r = split_on(s, sep);
        assert forall|i: int| 0 <= i < r.len() implies !(#[trigger] r[i]).contains(sep) by {
            if s.last() == sep {
                if i < p.len() {
                    assert(r[i] == p[i]);
                } else {
                    assert(r[i] =~= Seq::<char>::empty());
                }
            } else {
                if i < p.len() - 1 {
                    assert(r[i] == p[i]);
                } else {
                    assert(r[i] == p.last().push(s.last()));
                    assert(!p[p.len() - 1].contains(sep));
                    if r[i].contains(sep) {
                        let k = choose|k: int| 0 <= k < r[i].len() && r[i][k] == sep;
                        if k < p.last().len() {
                            assert(p.last()[k] == sep);
                        }
                    }
                }
            }
        }
    } else {
        assert(split_on(s, sep) =~= seq![Seq::<char>::empty()]);
    }
}

/// No line of a text holds a newline.
pub proof fn lemma_lines_no_newline(s: Seq<char>)
    ensures
        forall|i: int| 0 <= i < lines(s).len() ==> !(#[trigger] lines(s)[i]).contains('\n'),
{
    lemma_split_on_pieces(s, '\n');
    lemma_split_nl_len(s);
    let parts = split_nl(s);
    let k = parts.len() - 1;
    assert forall|i: int| 0 <= i < lines(s).len() implies !(#[trigger] lines(s)[i]).contains('\n') by {
        assert(!parts[i].contains('\n'));
        if i < k {
            assert(lines(s)[i] == strip_cr(parts[i]));
            if strip_cr(parts[i]).contains('\n') {
                let j = choose|j: int| 0 <= j < strip_cr(parts[i]).len() && strip_cr(parts[i])[j] == '\n';
                assert(parts[i][j] == '\n');
            }
        } else {
            assert(lines(s)[i] == parts[k]);
        }
    }
}

/// How Rust's `Debug` escapes one character of a string: quotes,
/// backslashes, newline, carriage return, tab and NUL get a backslash
/// escape; other characters stand as they are.
pub open spec fn debug_escape_char(c: char) -> Seq<char> {
    if c == '"' || c == '\\' {
        seq!['\\', c]
    } else if c == '\n' {
        seq!['\\', 'n']
    } else if c == '\r' {
        seq!['\\', 'r']
    } else if c == '\t' {
        seq!['\\', 't']
    } else if c == '\0' {
        seq!['\\', '0']
    } else {
        seq![c]
    }
}

/// `s` escaped character by character as Rust's `Debug` escapes a string.
pub open spec fn debug_escaped(s: Seq<char>) -> Seq<char>
    decreases s.len(),
{
    if s.len() == 0 {
        Seq::empty()
    } else {
        debug_escaped(s.drop_last()) + debug_escape_char(s.last())
    }
}

/// `s` quoted and escaped as Rust's `Debug` shows a string.
pub fn debug_quoted(s: &str) -> (r: String)
    ensures
        r@ == "\""@ + debug_escaped(s@) + "\""@,
{
    let v = chars_of(s);
    let mut out = "\"".to_string();
    let ghost start = out@;
    let mut i: usize = 0;
    while i < v.len()
        invariant
            i <= v@.len(),
            v@ == s@,
            out@ == start + debug_escaped(s@.take(i as int)),
        decreases v@.len() - i,
    {
        let c = v[i];
        if c == '"' || c == '\\' {
            push_char(&mut out, '\\');
            push_char(&mut out, c);
        } else if c == '\n' {
            push_char(&mut out, '\\');
            push_char(&mut out, 'n');
        } else if c == '\r' {
            push_char(&mut out, '\\');
            push_char(&mut out, 'r');
        } else if c == '\t' {
            push_char(&mut out, '\\');
            push_char(&mut out, 't');
        } else if c == '\0' {
            push_char(&mut out, '\\');
            push_char(&mut out, '0');
        } else {
            push_char(&mut out, c);
        }
        proof {
            assert(s@.take(i + 1).drop_last() =~= s@.take(i as int));
            assert(s@.take(i + 1).last() == c);
        }
        i += 1;
        assert(out@ =~= start + debug_escaped(s@.take(i as int)));
    }
    assert(s@.take(i as int) =~= s@);
    proof {
        reveal_strlit("\"");
    }
    join2(out.as_str(), "\"")
}

/// Owned copies of the strings, in order.
pub fn copy_strings(v: &Vec<String>) -> (r: Vec<String>)
    ensures
        string_views(r@) == string_views(v@),
{
    let mut r: Vec<String> = Vec::new();
    let mut i: usize = 0;
    while i < v.len()
        invariant
            i <= v@.len(),
            r@.len() == i,
            forall|k: int| 0 <= k < i ==> #[trigger] r@[k]@ == v@[k]@,
        decreases v@.len() - i,
    {
        r.push(owned(v[i].as_str()));
        i += 1;
    }
    assert(string_views(r@) =~= string_views(v@));
    r
}

} // verus!
