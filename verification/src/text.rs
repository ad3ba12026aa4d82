use vstd::prelude::*;

verus! {

/// The whitespace characters of the declaration grammar and of body
/// trimming: space, tab, newline, carriage return.
pub open spec fn is_ws(c: char) -> bool {
    c == ' ' || c == '\t' || c == '\n' || c == '\r'
}

/// The whitespace class as a function value, so that every use names the
/// same closure.
pub open spec fn ws_f() -> spec_fn(char) -> bool {
    |c: char| is_ws(c)
}

/// Everything up to (but not including) a line terminator.
pub open spec fn not_nl_f() -> spec_fn(char) -> bool {
    |c: char| c != '\n'
}

/// The first index at or after `i` where `p` fails, or the length of `s`
/// if `p` holds to the end.
pub open spec fn scan_while(s: Seq<char>, i: int, p: spec_fn(char) -> bool) -> int
    decreases s.len() - i,
{
    if i < 0 || i >= s.len() || !p(s[i]) {
        i
    } else {
        scan_while(s, i + 1, p)
    }
}

pub proof fn lemma_scan_while_bounds(s: Seq<char>, i: int, p: spec_fn(char) -> bool)
    requires
        0 <= i <= s.len(),
    ensures
        i <= scan_while(s, i, p) <= s.len(),
    decreases s.len() - i,
{
    if i < s.len() && p(s[i]) {
        lemma_scan_while_bounds(s, i + 1, p);
    }
}

/// Relies on str::chars and Iterator::collect: the characters of a
/// string slice, in order; a str's view is exactly that character
/// sequence.
#[verifier::external_body]
pub(crate) fn str_chars(s: &str) -> (v: Vec<char>)
    ensures
        v@ == s@,
{
    s.chars().collect()
}

/// Relies on Iterator::collect for String: a String built from a
/// character sequence views as that sequence.
#[verifier::external_body]
pub(crate) fn chars_string(v: &Vec<char>) -> (s: String)
    ensures
        s@ == v@,
{
    v.iter().collect()
}

pub(crate) fn is_ws_e(c: char) -> (r: bool)
    ensures
        r == is_ws(c),
{
    c == ' ' || c == '\t' || c == '\n' || c == '\r'
}

/// Skips whitespace: the first index at or after `i` holding a
/// non-whitespace character, or the end.
pub(crate) fn scan_ws(v: &Vec<char>, i: usize) -> (r: usize)
    requires
        i <= v@.len(),
    ensures
        r == scan_while(v@, i as int, ws_f()),
        i <= r <= v@.len(),
{
    let mut j = i;
    while j < v.len() && is_ws_e(v[j])
        invariant
            i <= j <= v@.len(),
            scan_while(v@, i as int, ws_f()) == scan_while(v@, j as int, ws_f()),
        decreases v@.len() - j,
    {
        assert(scan_while(v@, j as int, ws_f()) == scan_while(v@, j + 1, ws_f()));
        j = j + 1;
    }
    assert(scan_while(v@, j as int, ws_f()) == j);
    j
}

/// The first index at or after `i` holding a newline, or the end.
pub(crate) fn scan_to_nl(v: &Vec<char>, i: usize) -> (r: usize)
    requires
        i <= v@.len(),
    ensures
        r == scan_while(v@, i as int, not_nl_f()),
        i <= r <= v@.len(),
{
    let mut j = i;
    while j < v.len() && v[j] != '\n'
        invariant
            i <= j <= v@.len(),
            scan_while(v@, i as int, not_nl_f()) == scan_while(v@, j as int, not_nl_f()),
        decreases v@.len() - j,
    {
        assert(scan_while(v@, j as int, not_nl_f()) == scan_while(v@, j + 1, not_nl_f()));
        j = j + 1;
    }
    assert(scan_while(v@, j as int, not_nl_f()) == j);
    j
}

/// Copies `v[a..b]` into a fresh vector.
pub(crate) fn copy_range(v: &Vec<char>, a: usize, b: usize) -> (r: Vec<char>)
    requires
        a <= b <= v@.len(),
    ensures
        r@ == v@.subrange(a as int, b as int),
{
    let mut r: Vec<char> = Vec::new();
    let mut k = a;
    while k < b
        invariant
            a <= k <= b <= v@.len(),
            r@ == v@.subrange(a as int, k as int),
        decreases b - k,
    {
        r.push(v[k]);
        assert(v@.subrange(a as int, k + 1) =~= v@.subrange(a as int, k as int) + seq![v@[k as int]]);
        k = k + 1;
    }
    r
}

} // verus!
