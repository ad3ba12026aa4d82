use vstd::prelude::*;
use crate::text::{ws_f, scan_while, lemma_scan_while_bounds, scan_ws, copy_range, chars_string};

verus! {

// ------------------------------------------------------------------
// The declaration grammar.
//
// A dependency declaration is
//     [`#[macro_use]` ws*] `extern` ws+ `crate` ws+ NAME [BRACKET] `;`
// where NAME is a nonempty run of characters other than `;`, space and
// `[`, and BRACKET is `[` PKG `;` VERSION `]` or `[` VERSION `]`: PKG a
// nonempty run of characters other than `;` and space, VERSION a
// nonempty run of characters other than `]`. Runs are maximal, the
// aliased form is preferred where both fit, and scanning collects
// non-overlapping matches left to right.
// ------------------------------------------------------------------

pub open spec fn is_name_char(c: char) -> bool {
    c != ';' && c != ' ' && c != '['
}

pub open spec fn name_f() -> spec_fn(char) -> bool {
    |c: char| is_name_char(c)
}

pub open spec fn is_pkg_char(c: char) -> bool {
    c != ';' && c != ' '
}

pub open spec fn pkg_f() -> spec_fn(char) -> bool {
    |c: char| is_pkg_char(c)
}

pub open spec fn is_ver_char(c: char) -> bool {
    c != ']'
}

pub open spec fn ver_f() -> spec_fn(char) -> bool {
    |c: char| is_ver_char(c)
}

pub open spec fn lit_macro_use() -> Seq<char> {
    seq!['#', '[', 'm', 'a', 'c', 'r', 'o', '_', 'u', 's', 'e', ']']
}

pub open spec fn lit_extern() -> Seq<char> {
    seq!['e', 'x', 't', 'e', 'r', 'n']
}

pub open spec fn lit_crate() -> Seq<char> {
    seq!['c', 'r', 'a', 't', 'e']
}

/// `lit` occurs in `s` starting at `i`.
pub open spec fn lit_at(s: Seq<char>, i: int, lit: Seq<char>) -> bool {
    0 <= i && i + lit.len() <= s.len() && s.subrange(i, i + lit.len()) == lit
}

/// One dependency declaration, as a mathematical value: import name,
/// package alias (defaulted to the name), version constraint (defaulted
/// to the wildcard), and whether its items are exported at top level.
#[verifier::ext_equal]
pub struct Decl {
    pub name: Seq<char>,
    pub package_name: Seq<char>,
    pub version: Seq<char>,
    pub macro_use: bool,
}

/// A successful parse at some position: the declaration and the index
/// one past its final `;`.
pub struct Parsed {
    pub end: int,
    pub decl: Decl,
}

/// The bracketed clause at `b` (just after `[`), for a declaration whose
/// import name is `name`: `PKG ; VERSION ]` if that shape fits and is
/// followed by `;`, else `VERSION ]` followed by `;`.
pub open spec fn parse_bracket(s: Seq<char>, b: int, name: Seq<char>, mu: bool) -> Option<
    Parsed,
> {
    let pe = scan_while(s, b, pkg_f());
    if pe > b && pe < s.len() && s[pe] == ';' && bracket_close_ok(s, pe + 1) {
        let ve = scan_while(s, pe + 1, ver_f());
        Some(
            Parsed {
                end: ve + 2,
                decl: Decl {
                    name,
                    package_name: s.subrange(b, pe),
                    version: s.subrange(pe + 1, ve),
                    macro_use: mu,
                },
            },
        )
    } else {
        let ve = scan_while(s, b, ver_f());
        if ve > b && ve < s.len() && s[ve] == ']' && ve + 1 < s.len() && s[ve + 1] == ';' {
            Some(
                Parsed {
                    end: ve + 2,
                    decl: Decl {
                        name,
                        package_name: name,
                        version: s.subrange(b, ve),
                        macro_use: mu,
                    },
                },
            )
        } else {
            None
        }
    }
}

/// A nonempty version run starting at `v0`, closed by `]` and then `;`.
pub open spec fn bracket_close_ok(s: Seq<char>, v0: int) -> bool {
    let ve = scan_while(s, v0, ver_f());
    ve > v0 && ve < s.len() && s[ve] == ']' && ve + 1 < s.len() && s[ve + 1] == ';'
}

/// The keyword pair, name and optional bracket starting at `j`; `mu`
/// records whether the top-level-export marker preceded it.
pub open spec fn parse_extern(s: Seq<char>, j: int, mu: bool) -> Option<Parsed> {
    if !lit_at(s, j, lit_extern()) {
        None
    } else {
        let k = scan_while(s, j + 6, ws_f());
        if k == j + 6 || !lit_at(s, k, lit_crate()) {
            None
        } else {
            let m = scan_while(s, k + 5, ws_f());
            if m == k + 5 {
                None
            } else {
                let ne = scan_while(s, m, name_f());
                if ne == m {
                    None
                } else {
                    let name = s.subrange(m, ne);
                    if ne < s.len() && s[ne] == ';' {
                        Some(
                            Parsed {
                                end: ne + 1,
                                decl: Decl {
                                    name,
                                    package_name: name,
                                    version: seq!['*'],
                                    macro_use: mu,
                                },
                            },
                        )
                    } else if ne < s.len() && s[ne] == '[' {
                        parse_bracket(s, ne + 1, name, mu)
                    } else {
                        None
                    }
                }
            }
        }
    }
}

/// The declaration starting exactly at `i`, if any: the top-level-export
/// marker (followed by optional whitespace) or nothing, then the
/// `extern crate` form.
pub open spec fn parse_at(s: Seq<char>, i: int) -> Option<Parsed> {
    if lit_at(s, i, lit_macro_use()) {
        parse_extern(s, scan_while(s, i + 12, ws_f()), true)
    } else {
        parse_extern(s, i, false)
    }
}

/// A successful parse always consumes at least one character and never
/// reads past the end.
pub proof fn lemma_parse_end(s: Seq<char>, i: int)
    requires
        0 <= i < s.len(),
        parse_at(s, i) is Some,
    ensures
        i < parse_at(s, i)->Some_0.end <= s.len(),
{
    let j = if lit_at(s, i, lit_macro_use()) {
        lemma_scan_while_bounds(s, i + 12, ws_f());
        scan_while(s, i + 12, ws_f())
    } else {
        i
    };
    assert(parse_at(s, i) == parse_extern(s, j, lit_at(s, i, lit_macro_use())));
    assert(i <= j <= s.len());
    lemma_parse_extern_end(s, j, lit_at(s, i, lit_macro_use()));
}

proof fn lemma_parse_extern_end(s: Seq<char>, j: int, mu: bool)
    requires
        0 <= j <= s.len(),
        parse_extern(s, j, mu) is Some,
    ensures
        j < parse_extern(s, j, mu)->Some_0.end <= s.len(),
{
    assert(lit_at(s, j, lit_extern()));
    let k = scan_while(s, j + 6, ws_f());
    lemma_scan_while_bounds(s, j + 6, ws_f());
    assert(lit_at(s, k, lit_crate()));
    let m = scan_while(s, k + 5, ws_f());
    lemma_scan_while_bounds(s, k + 5, ws_f());
    let ne = scan_while(s, m, name_f());
    lemma_scan_while_bounds(s, m, name_f());
    if ne < s.len() && s[ne] == ';' {
    } else {
        assert(ne < s.len() && s[ne] == '[');
        lemma_parse_bracket_end(s, ne + 1, s.subrange(m, ne), mu);
    }
}

proof fn lemma_parse_bracket_end(s: Seq<char>, b: int, name: Seq<char>, mu: bool)
    requires
        0 <= b <= s.len(),
        parse_bracket(s, b, name, mu) is Some,
    ensures
        b < parse_bracket(s, b, name, mu)->Some_0.end <= s.len(),
{
    let pe = scan_while(s, b, pkg_f());
    lemma_scan_while_bounds(s, b, pkg_f());
    if pe > b && pe < s.len() && s[pe] == ';' && bracket_close_ok(s, pe + 1) {
        lemma_scan_while_bounds(s, pe + 1, ver_f());
    } else {
        lemma_scan_while_bounds(s, b, ver_f());
    }
}

// ------------------------------------------------------------------
// Scanning a whole source: non-overlapping matches left to right, and
// the source with every matched span removed.
// ------------------------------------------------------------------

/// What one extraction pass yields from some position on: the
/// declarations in order, and the tail of the rewritten source (all
/// characters outside matched spans, in order).
#[verifier::ext_equal]
pub struct ExtractR {
    pub decls: Seq<Decl>,
    pub rest: Seq<char>,
}

pub open spec fn extract_from(s: Seq<char>, i: int) -> ExtractR
    decreases s.len() - i,
{
    if i < 0 || i >= s.len() {
        ExtractR { decls: Seq::empty(), rest: Seq::empty() }
    } else {
        match parse_at(s, i) {
            Some(p) => {
                if i < p.end <= s.len() {
                    let r = extract_from(s, p.end);
                    ExtractR { decls: seq![p.decl] + r.decls, rest: r.rest }
                } else {
                    ExtractR { decls: Seq::empty(), rest: Seq::empty() }
                }
            },
            None => {
                let r = extract_from(s, i + 1);
                ExtractR { decls: r.decls, rest: seq![s[i]] + r.rest }
            },
        }
    }
}

/// Extraction over the whole source.
pub open spec fn extract_spec(s: Seq<char>) -> ExtractR {
    extract_from(s, 0)
}

pub proof fn lemma_extract_step_match(s: Seq<char>, i: int)
    requires
        0 <= i < s.len(),
        parse_at(s, i) is Some,
    ensures
        extract_from(s, i).decls == seq![parse_at(s, i)->Some_0.decl] + extract_from(
            s,
            parse_at(s, i)->Some_0.end,
        ).decls,
        extract_from(s, i).rest == extract_from(s, parse_at(s, i)->Some_0.end).rest,
{
    lemma_parse_end(s, i);
}

pub proof fn lemma_extract_step_none(s: Seq<char>, i: int)
    requires
        0 <= i < s.len(),
        parse_at(s, i) is None,
    ensures
        extract_from(s, i).decls == extract_from(s, i + 1).decls,
        extract_from(s, i).rest == seq![s[i]] + extract_from(s, i + 1).rest,
{
}

proof fn lemma_extract_rest_of_no_decls(s: Seq<char>, i: int)
    requires
        0 <= i <= s.len(),
        extract_from(s, i).decls.len() == 0,
    ensures
        extract_from(s, i).rest == s.subrange(i, s.len() as int),
    decreases s.len() - i,
{
    if i >= s.len() {
        assert(s.subrange(i, s.len() as int) =~= Seq::<char>::empty());
    } else {
        match parse_at(s, i) {
            Some(p) => {
                lemma_extract_step_match(s, i);
                assert(extract_from(s, i).decls.len() >= 1);
            },
            None => {
                lemma_extract_step_none(s, i);
                lemma_extract_rest_of_no_decls(s, i + 1);
                assert(s.subrange(i, s.len() as int) =~= seq![s[i]] + s.subrange(
                    i + 1,
                    s.len() as int,
                ));
            },
        }
    }
}

/// Scanning completeness: a region that yields no declaration holds no
/// position at which one parses — every position was tried.
pub proof fn lemma_no_decl_no_parse(s: Seq<char>, i: int, j: int)
    requires
        0 <= i <= j < s.len(),
        extract_from(s, i).decls.len() == 0,
    ensures
        parse_at(s, j) is None,
    decreases j - i,
{
    if parse_at(s, i) is Some {
        lemma_extract_step_match(s, i);
    } else if i < j {
        lemma_extract_step_none(s, i);
        lemma_no_decl_no_parse(s, i + 1, j);
    }
}

/// Extraction idempotence over declaration-free sources: when a source
/// holds no declaration, rewriting leaves it unchanged character for
/// character, so a second extraction again finds nothing and again
/// returns the source itself; indeed no position of the source parses
/// as a declaration at all.
pub proof fn lemma_extract_none_identity(s: Seq<char>)
    requires
        extract_spec(s).decls.len() == 0,
    ensures
        extract_spec(s).rest == s,
        extract_spec(extract_spec(s).rest).decls.len() == 0,
        extract_spec(extract_spec(s).rest).rest == s,
        forall|j: int| 0 <= j < s.len() ==> parse_at(s, j) is None,
{
    lemma_extract_rest_of_no_decls(s, 0);
    assert(s.subrange(0, s.len() as int) =~= s);
    assert forall|j: int| 0 <= j < s.len() implies parse_at(s, j) is None by {
        lemma_no_decl_no_parse(s, 0, j);
    }
}

// ------------------------------------------------------------------
// The executable parser, one position at a time.
// ------------------------------------------------------------------

/// One parsed declaration with its fields materialized and the index one
/// past its final `;`.
pub(crate) struct RawDecl {
    pub(crate) end: usize,
    pub(crate) name: String,
    pub(crate) package_name: String,
    pub(crate) version: String,
    pub(crate) macro_use: bool,
}

fn is_name_char_e(c: char) -> (r: bool)
    ensures
        r == is_name_char(c),
{
    c != ';' && c != ' ' && c != '['
}

fn is_pkg_char_e(c: char) -> (r: bool)
    ensures
        r == is_pkg_char(c),
{
    c != ';' && c != ' '
}

fn is_ver_char_e(c: char) -> (r: bool)
    ensures
        r == is_ver_char(c),
{
    c != ']'
}

fn scan_name(v: &Vec<char>, i: usize) -> (r: usize)
    requires
        i <= v@.len(),
    ensures
        r == scan_while(v@, i as int, name_f()),
        i <= r <= v@.len(),
{
    let mut j = i;
    while j < v.len() && is_name_char_e(v[j])
        invariant
            i <= j <= v@.len(),
            scan_while(v@, i as int, name_f()) == scan_while(v@, j as int, name_f()),
        decreases v@.len() - j,
    {
        assert(scan_while(v@, j as int, name_f()) == scan_while(v@, j + 1, name_f()));
        j = j + 1;
    }
    assert(scan_while(v@, j as int, name_f()) == j);
    j
}

fn scan_pkg(v: &Vec<char>, i: usize) -> (r: usize)
    requires
        i <= v@.len(),
    ensures
        r == scan_while(v@, i as int, pkg_f()),
        i <= r <= v@.len(),
{
    let mut j = i;
    while j < v.len() && is_pkg_char_e(v[j])
        invariant
            i <= j <= v@.len(),
            scan_while(v@, i as int, pkg_f()) == scan_while(v@, j as int, pkg_f()),
        decreases v@.len() - j,
    {
        assert(scan_while(v@, j as int, pkg_f()) == scan_while(v@, j + 1, pkg_f()));
        j = j + 1;
    }
    assert(scan_while(v@, j as int, pkg_f()) == j);
    j
}

fn scan_ver(v: &Vec<char>, i: usize) -> (r: usize)
    requires
        i <= v@.len(),
    ensures
        r == scan_while(v@, i as int, ver_f()),
        i <= r <= v@.len(),
{
    let mut j = i;
    while j < v.len() && is_ver_char_e(v[j])
        invariant
            i <= j <= v@.len(),
            scan_while(v@, i as int, ver_f()) == scan_while(v@, j as int, ver_f()),
        decreases v@.len() - j,
    {
        assert(scan_while(v@, j as int, ver_f()) == scan_while(v@, j + 1, ver_f()));
        j = j + 1;
    }
    assert(scan_while(v@, j as int, ver_f()) == j);
    j
}

fn match_lit_extern(v: &Vec<char>, i: usize) -> (r: bool)
    requires
        i <= v@.len(),
    ensures
        r == lit_at(v@, i as int, lit_extern()),
{
    if v.len() - i >= 6 {
        let r = v[i] == 'e' && v[i + 1] == 'x' && v[i + 2] == 't' && v[i + 3] == 'e' && v[i + 4]
            == 'r' && v[i + 5] == 'n';
        proof {
            let s = v@.subrange(i as int, i as int + 6);
            assert(forall|k: int| 0 <= k < 6 ==> s[k] == v@[i + k]);
            if r {
                assert(s =~= lit_extern());
            } else {
                if lit_at(v@, i as int, lit_extern()) {
                    assert(v@[i as int] == 'e' && v@[i + 1] == 'x' && v@[i + 2] == 't' && v@[i + 3]
                        == 'e' && v@[i + 4] == 'r' && v@[i + 5] == 'n');
                }
            }
        }
        r
    } else {
        false
    }
}

fn match_lit_crate(v: &Vec<char>, i: usize) -> (r: bool)
    requires
        i <= v@.len(),
    ensures
        r == lit_at(v@, i as int, lit_crate()),
{
    if v.len() - i >= 5 {
        let r = v[i] == 'c' && v[i + 1] == 'r' && v[i + 2] == 'a' && v[i + 3] == 't' && v[i + 4]
            == 'e';
        proof {
            let s = v@.subrange(i as int, i as int + 5);
            assert(forall|k: int| 0 <= k < 5 ==> s[k] == v@[i + k]);
            if r {
                assert(s =~= lit_crate());
            } else {
                if lit_at(v@, i as int, lit_crate()) {
                    assert(v@[i as int] == 'c' && v@[i + 1] == 'r' && v@[i + 2] == 'a' && v@[i + 3]
                        == 't' && v@[i + 4] == 'e');
                }
            }
        }
        r
    } else {
        false
    }
}

fn match_lit_macro_use(v: &Vec<char>, i: usize) -> (r: bool)
    requires
        i <= v@.len(),
    ensures
        r == lit_at(v@, i as int, lit_macro_use()),
{
    if v.len() - i >= 12 {
        let r = v[i] == '#' && v[i + 1] == '[' && v[i + 2] == 'm' && v[i + 3] == 'a' && v[i + 4]
            == 'c' && v[i + 5] == 'r' && v[i + 6] == 'o' && v[i + 7] == '_' && v[i + 8] == 'u' && v[i
            + 9] == 's' && v[i + 10] == 'e' && v[i + 11] == ']';
        proof {
            let s = v@.subrange(i as int, i as int + 12);
            assert(forall|k: int| 0 <= k < 12 ==> s[k] == v@[i + k]);
            if r {
                assert(s =~= lit_macro_use());
            } else {
                if lit_at(v@, i as int, lit_macro_use()) {
                    assert(v@[i as int] == '#' && v@[i + 1] == '[' && v@[i + 2] == 'm' && v@[i + 3]
                        == 'a' && v@[i + 4] == 'c' && v@[i + 5] == 'r' && v@[i + 6] == 'o' && v@[i
                        + 7] == '_' && v@[i + 8] == 'u' && v@[i + 9] == 's' && v@[i + 10] == 'e'
                        && v@[i + 11] == ']');
                }
            }
        }
        r
    } else {
        false
    }
}

/// The declaration starting exactly at `i`, materialized, or nothing.
pub(crate) fn try_parse(v: &Vec<char>, i: usize) -> (r: Option<RawDecl>)
    requires
        i < v@.len(),
    ensures
        r is Some <==> parse_at(v@, i as int) is Some,
        r matches Some(q) ==> ({
            let p = parse_at(v@, i as int)->Some_0;
            &&& q.end == p.end
            &&& q.name@ == p.decl.name
            &&& q.package_name@ == p.decl.package_name
            &&& q.version@ == p.decl.version
            &&& q.macro_use == p.decl.macro_use
        }),
{
    let ghost s = v@;
    let n = v.len();
    proof {
        assert(s.len() <= usize::MAX);
    }
    let (j, mu): (usize, bool) = if match_lit_macro_use(v, i) {
        proof {
            assert(lit_macro_use().len() == 12);
            assert(i + 12 <= v@.len());
        }
        (scan_ws(v, i + 12), true)
    } else {
        (i, false)
    };
    proof {
        assert(parse_at(s, i as int) == parse_extern(s, j as int, mu));
    }
    if !match_lit_extern(v, j) {
        return None;
    }
    proof {
        assert(lit_extern().len() == 6);
        assert(j + 6 <= v@.len());
    }
    let k = scan_ws(v, j + 6);
    if k == j + 6 {
        return None;
    }
    if !match_lit_crate(v, k) {
        return None;
    }
    proof {
        assert(lit_crate().len() == 5);
        assert(k + 5 <= v@.len());
    }
    let m = scan_ws(v, k + 5);
    if m == k + 5 {
        return None;
    }
    let ne = scan_name(v, m);
    if ne == m {
        return None;
    }
    let name = chars_string(&copy_range(v, m, ne));
    if ne < n && v[ne] == ';' {
        let mut sv: Vec<char> = Vec::new();
        sv.push('*');
        let version = chars_string(&sv);
        proof {
            assert(version@ =~= seq!['*']);
        }
        let package_name = name.clone();
        return Some(RawDecl { end: ne + 1, name, package_name, version, macro_use: mu });
    } else if ne < n && v[ne] == '[' {
        let b = ne + 1;
        let pe = scan_pkg(v, b);
        if pe > b && pe < n && v[pe] == ';' {
            let ve = scan_ver(v, pe + 1);
            if ve > pe + 1 && ve < n && v[ve] == ']' && ve < n - 1 && v[ve + 1] == ';' {
                let package_name = chars_string(&copy_range(v, b, pe));
                let version = chars_string(&copy_range(v, pe + 1, ve));
                proof {
                    assert(bracket_close_ok(s, pe + 1));
                }
                return Some(RawDecl { end: ve + 2, name, package_name, version, macro_use: mu });
            }
        }
        let ve = scan_ver(v, b);
        if ve > b && ve < n && v[ve] == ']' && ve < n - 1 && v[ve + 1] == ';' {
            let version = chars_string(&copy_range(v, b, ve));
            let package_name = name.clone();
            return Some(RawDecl { end: ve + 2, name, package_name, version, macro_use: mu });
        }
        return None;
    } else {
        return None;
    }
}

} // verus!
