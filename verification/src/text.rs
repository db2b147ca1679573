//! Plain-text helpers the parsers are built on: splitting into lines,
//! trimming spaces, unquoting, equality of strings, and decimal numbers.
use vstd::prelude::*;

verus! {

use vstd::string::StrSliceExecFns;
use vstd::string::StringExecFns;

/// The index of the first occurrence of `c` in `s` at or after `from`,
/// or `s.len()` when there is none.
pub open spec fn first_at(s: Seq<char>, from: int, c: char) -> int
    decreases s.len() - from,
{
    if from < 0 || from >= s.len() {
        s.len() as int
    } else if s[from] == c {
        from
    } else {
        first_at(s, from + 1, c)
    }
}

pub proof fn lemma_first_at(s: Seq<char>, from: int, c: char)
    requires
        0 <= from <= s.len(),
    ensures
        from <= first_at(s, from, c) <= s.len(),
        forall|j: int| from <= j < first_at(s, from, c) ==> s[j] != c,
        first_at(s, from, c) < s.len() ==> s[first_at(s, from, c)] == c,
    decreases s.len() - from,
{
    if from < s.len() && s[from] != c {
        lemma_first_at(s, from + 1, c);
    }
}

pub proof fn lemma_first_at_is(s: Seq<char>, from: int, c: char, k: int)
    requires
        0 <= from <= k <= s.len(),
        forall|j: int| from <= j < k ==> s[j] != c,
        k == s.len() || s[k] == c,
    ensures
        first_at(s, from, c) == k,
    decreases k - from,
{
    if from < k {
        lemma_first_at_is(s, from + 1, c, k);
    }
}

/// The segments of `s[from..]` between occurrences of the separator
/// `sep`. A final segment without a terminating separator still counts,
/// so a trailing separator adds no empty segment.
pub open spec fn segments_from(s: Seq<char>, from: int, sep: char) -> Seq<Seq<char>>
    decreases s.len() - from,
    via segments_from_decreases
{
    if from < 0 || from >= s.len() {
        Seq::empty()
    } else {
        let j = first_at(s, from, sep);
        if j >= s.len() {
            seq![s.subrange(from, s.len() as int)]
        } else {
            seq![s.subrange(from, j)] + segments_from(s, j + 1, sep)
        }
    }
}

#[via_fn]
proof fn segments_from_decreases(s: Seq<char>, from: int, sep: char) {
    if 0 <= from < s.len() {
        lemma_first_at(s, from, sep);
    }
}

/// The lines of a text: its segments between `'\n'` characters.
pub open spec fn spec_lines(s: Seq<char>) -> Seq<Seq<char>> {
    segments_from(s, 0, '\n')
}

pub open spec fn spec_split(s: Seq<char>, sep: char) -> Seq<Seq<char>> {
    segments_from(s, 0, sep)
}

/// Split a string at every occurrence of `sep`.
pub fn split_char(s: &str, sep: char) -> (r: Vec<String>)
    ensures
        r.deep_view() == spec_split(s@, sep),
{
    let n: usize = s.unicode_len();
    let mut r: Vec<String> = Vec::new();
    let mut start: usize = 0;
    let mut i: usize = 0;
    while i < n
        invariant
            n == s@.len(),
            start <= i <= n,
            forall|j: int| start <= j < i ==> s@[j] != sep,
            spec_split(s@, sep) == r.deep_view() + segments_from(s@, start as int, sep),
        decreases n - i,
    {
        let c = s.get_char(i);
        if c == sep {
            let line = s.substring_char(start, i).to_owned();
            proof {
                lemma_first_at_is(s@, start as int, sep, i as int);
                assert(segments_from(s@, start as int, sep) == seq![
                    s@.subrange(start as int, i as int),
                ] + segments_from(s@, i as int + 1, sep));
            }
            r.push(line);
            proof {
                assert(spec_split(s@, sep) =~= r.deep_view() + segments_from(
                    s@,
                    i as int + 1,
                    sep,
                ));
            }
            start = i + 1;
        }
        i = i + 1;
    }
    if start < n {
        let line = s.substring_char(start, n).to_owned();
        proof {
            lemma_first_at_is(s@, start as int, sep, n as int);
        }
        r.push(line);
        proof {
            assert(spec_split(s@, sep) =~= r.deep_view());
        }
    } else {
        proof {
            assert(segments_from(s@, start as int, sep) =~= Seq::<Seq<char>>::empty());
            assert(spec_split(s@, sep) =~= r.deep_view());
        }
    }
    r
}

/// Split a text into its lines.
pub fn split_lines(s: &str) -> (r: Vec<String>)
    ensures
        r.deep_view() == spec_lines(s@),
{
    split_char(s, '\n')
}

/// `r == true` exactly when the two strings hold the same characters.
pub fn str_eq(a: &str, b: &str) -> (r: bool)
    ensures
        r == (a@ == b@),
{
    let na: usize = a.unicode_len();
    let nb: usize = b.unicode_len();
    if na != nb {
        return false;
    }
    let mut i: usize = 0;
    while i < na
        invariant
            na == a@.len(),
            na == b@.len(),
            i <= na,
            forall|j: int| 0 <= j < i ==> a@[j] == b@[j],
        decreases na - i,
    {
        if a.get_char(i) != b.get_char(i) {
            return false;
        }
        i = i + 1;
    }
    proof {
        assert(a@ =~= b@);
    }
    true
}

pub open spec fn is_space(c: char) -> bool {
    c == ' ' || c == '\t'
}

fn is_space_at(s: &str, j: usize) -> (r: bool)
    requires
        j < s@.len(),
    ensures
        r == is_space(s@[j as int]),
{
    let c = s.get_char(j);
    c == ' ' || c == '\t'
}

pub open spec fn ltrim(s: Seq<char>) -> Seq<char>
    decreases s.len(),
{
    if s.len() > 0 && is_space(s[0]) {
        ltrim(s.drop_first())
    } else {
        s
    }
}

pub open spec fn rtrim(s: Seq<char>) -> Seq<char>
    decreases s.len(),
{
    if s.len() > 0 && is_space(s.last()) {
        rtrim(s.drop_last())
    } else {
        s
    }
}

/// `s` with leading and trailing spaces and tabs removed.
pub open spec fn spec_trim(s: Seq<char>) -> Seq<char> {
    rtrim(ltrim(s))
}

proof fn lemma_ltrim_skip(s: Seq<char>, k: int)
    requires
        0 <= k <= s.len(),
        forall|j: int| 0 <= j < k ==> is_space(s[j]),
        k == s.len() || !is_space(s[k]),
    ensures
        ltrim(s) == s.skip(k),
    decreases k,
{
    if k == 0 {
        assert(s.skip(0) =~= s);
    } else {
        lemma_ltrim_skip(s.drop_first(), k - 1);
        assert(s.drop_first().skip(k - 1) =~= s.skip(k));
    }
}

proof fn lemma_rtrim_take(s: Seq<char>, k: int)
    requires
        0 <= k <= s.len(),
        forall|j: int| k <= j < s.len() ==> is_space(s[j]),
        k == 0 || !is_space(s[k - 1]),
    ensures
        rtrim(s) == s.take(k),
    decreases s.len() - k,
{
    if k == s.len() {
        assert(s.take(k) =~= s);
    } else {
        lemma_rtrim_take(s.drop_last(), k);
        assert(s.drop_last().take(k) =~= s.take(k));
    }
}

/// Remove leading and trailing spaces and tabs.
pub fn trim_str<'a>(s: &'a str) -> (r: &'a str)
    ensures
        r@ == spec_trim(s@),
{
    let n: usize = s.unicode_len();
    let mut lo: usize = 0;
    while lo < n && is_space_at(s, lo)
        invariant
            n == s@.len(),
            lo <= n,
            forall|j: int| 0 <= j < lo ==> is_space(s@[j]),
        decreases n - lo,
    {
        lo = lo + 1;
    }
    let mut hi: usize = n;
    while hi > lo && is_space_at(s, hi - 1)
        invariant
            n == s@.len(),
            lo <= hi <= n,
            forall|j: int| hi <= j < n ==> is_space(s@[j]),
        decreases hi,
    {
        hi = hi - 1;
    }
    proof {
        lemma_ltrim_skip(s@, lo as int);
        lemma_rtrim_take(s@.skip(lo as int), hi - lo as int);
        assert(s@.skip(lo as int).take(hi - lo as int) =~= s@.subrange(lo as int, hi as int));
    }
    s.substring_char(lo, hi)
}

/// `s` with one pair of matching surrounding quotes removed, if present.
pub open spec fn spec_unquote(s: Seq<char>) -> Seq<char> {
    if s.len() >= 2 && ((s[0] == '"' && s.last() == '"') || (s[0] == '\'' && s.last() == '\'')) {
        s.subrange(1, s.len() - 1)
    } else {
        s
    }
}

pub fn unquote<'a>(s: &'a str) -> (r: &'a str)
    ensures
        r@ == spec_unquote(s@),
{
    let n: usize = s.unicode_len();
    if n >= 2 {
        let c0 = s.get_char(0);
        let cl = s.get_char(n - 1);
        if (c0 == '"' && cl == '"') || (c0 == '\'' && cl == '\'') {
            return s.substring_char(1, n - 1);
        }
    }
    s
}

pub open spec fn is_digit(c: char) -> bool {
    c == '0' || c == '1' || c == '2' || c == '3' || c == '4' || c == '5' || c == '6' || c == '7'
        || c == '8' || c == '9'
}

/// The value of a decimal digit; 0 for anything that is not one.
pub open spec fn digit_val(c: char) -> int {
    if c == '1' {
        1
    } else if c == '2' {
        2
    } else if c == '3' {
        3
    } else if c == '4' {
        4
    } else if c == '5' {
        5
    } else if c == '6' {
        6
    } else if c == '7' {
        7
    } else if c == '8' {
        8
    } else if c == '9' {
        9
    } else {
        0
    }
}

pub open spec fn all_digits(s: Seq<char>) -> bool {
    forall|j: int| 0 <= j < s.len() ==> is_digit(s[j])
}

/// The number a string of decimal digits denotes.
pub open spec fn str_to_nat(s: Seq<char>) -> int
    decreases s.len(),
{
    if s.len() == 0 {
        0
    } else {
        str_to_nat(s.drop_last()) * 10 + digit_val(s.last())
    }
}

pub proof fn lemma_str_to_nat_nonneg(s: Seq<char>)
    ensures
        str_to_nat(s) >= 0,
    decreases s.len(),
{
    if s.len() > 0 {
        lemma_str_to_nat_nonneg(s.drop_last());
    }
}

pub proof fn lemma_str_to_nat_mono(s: Seq<char>, k: int)
    requires
        0 <= k <= s.len(),
    ensures
        str_to_nat(s.take(k)) <= str_to_nat(s),
    decreases s.len(),
{
    if k == s.len() {
        assert(s.take(k) =~= s);
    } else {
        lemma_str_to_nat_nonneg(s.drop_last());
        lemma_str_to_nat_mono(s.drop_last(), k);
        assert(s.drop_last().take(k) =~= s.take(k));
    }
}

fn digit_of(c: char) -> (r: Option<u32>)
    ensures
        r is Some <==> is_digit(c),
        r is Some ==> r->0 == digit_val(c),
{
    if c == '0' {
        Some(0)
    } else if c == '1' {
        Some(1)
    } else if c == '2' {
        Some(2)
    } else if c == '3' {
        Some(3)
    } else if c == '4' {
        Some(4)
    } else if c == '5' {
        Some(5)
    } else if c == '6' {
        Some(6)
    } else if c == '7' {
        Some(7)
    } else if c == '8' {
        Some(8)
    } else if c == '9' {
        Some(9)
    } else {
        None
    }
}

/// Parse a nonempty string of decimal digits as a `u32`.
/// Fails exactly on empty input, a non-digit, or overflow.
pub fn parse_u32(s: &str) -> (r: Option<u32>)
    ensures
        r is Some <==> (s@.len() > 0 && all_digits(s@) && str_to_nat(s@) <= u32::MAX),
        r is Some ==> r->0 == str_to_nat(s@),
{
    let n: usize = s.unicode_len();
    if n == 0 {
        return None;
    }
    let mut acc: u32 = 0;
    let mut i: usize = 0;
    while i < n
        invariant
            n == s@.len(),
            i <= n,
            forall|j: int| 0 <= j < i ==> is_digit(s@[j]),
            acc == str_to_nat(s@.take(i as int)),
        decreases n - i,
    {
        let c = s.get_char(i);
        match digit_of(c) {
            None => {
                return None;
            },
            Some(d) => {
                if acc > (u32::MAX - d) / 10 {
                    proof {
                        assert(acc * 10 + d > u32::MAX) by (nonlinear_arith)
                            requires
                                acc > (u32::MAX - d) / 10,
                                d <= 9,
                        ;
                        assert(str_to_nat(s@.take(i as int + 1)) == acc * 10 + d) by {
                            assert(s@.take(i as int + 1).drop_last() =~= s@.take(i as int));
                        }
                        lemma_str_to_nat_mono(s@, i as int + 1);
                    }
                    return None;
                }
                proof {
                    assert(acc * 10 + d <= u32::MAX) by (nonlinear_arith)
                        requires
                            acc <= (u32::MAX - d) / 10,
                            d <= 9,
                    ;
                    assert(s@.take(i as int + 1).drop_last() =~= s@.take(i as int));
                }
                acc = acc * 10 + d;
            },
        }
        i = i + 1;
    }
    proof {
        assert(s@.take(n as int) =~= s@);
    }
    Some(acc)
}

/// `s` ends with the characters of `suffix`.
pub open spec fn spec_ends_with(s: Seq<char>, suffix: Seq<char>) -> bool {
    s.len() >= suffix.len() && s.subrange(s.len() - suffix.len(), s.len() as int) == suffix
}

pub fn str_ends_with(s: &str, suffix: &str) -> (r: bool)
    ensures
        r == spec_ends_with(s@, suffix@),
{
    let n: usize = s.unicode_len();
    let m: usize = suffix.unicode_len();
    if n < m {
        return false;
    }
    str_eq(s.substring_char(n - m, n), suffix)
}

/// The lines joined back into one text, with `'\n'` between them.
pub open spec fn join_rest(ls: Seq<Seq<char>>) -> Seq<char>
    decreases ls.len(),
{
    if ls.len() == 0 {
        Seq::empty()
    } else {
        seq!['\n'] + ls[0] + join_rest(ls.drop_first())
    }
}

pub open spec fn join_lines(ls: Seq<Seq<char>>) -> Seq<char> {
    if ls.len() == 0 {
        Seq::empty()
    } else {
        ls[0] + join_rest(ls.drop_first())
    }
}

/// Join lines with `'\n'` separators (no trailing newline).
pub fn join_lines_exec(ls: &Vec<String>) -> (r: String)
    ensures
        r@ == join_lines(ls.deep_view()),
{
    if ls.len() == 0 {
        return String::new();
    }
    let mut out: String = ls[0].clone();
    let mut i: usize = 1;
    while i < ls.len()
        invariant
            1 <= i <= ls.len(),
            ls.deep_view().len() == ls.len(),
            join_lines(ls.deep_view()) == out@ + join_rest(ls.deep_view().skip(i as int)),
        decreases ls.len() - i,
    {
        out.append("\n");
        out.append(ls[i].as_str());
        proof {
            reveal_strlit("\n");
            let lsv = ls.deep_view();
            assert("\n"@ =~= seq!['\n']);
            assert(lsv.skip(i as int)[0] == lsv[i as int]);
            assert(lsv.skip(i as int).drop_first() =~= lsv.skip(i as int + 1));
            assert(out@ + join_rest(lsv.skip(i as int + 1)) =~= join_lines(lsv));
        }
        i = i + 1;
    }
    proof {
        assert(join_rest(ls.deep_view().skip(i as int)) =~= Seq::<char>::empty());
        assert(out@ + join_rest(ls.deep_view().skip(i as int)) =~= out@);
    }
    out
}

} // verus!
