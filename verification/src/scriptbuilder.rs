use vstd::prelude::*;
use crate::errors::Error;
use crate::extract::{Decl, extract_spec, extract_from, parse_at, lemma_parse_end,
    lemma_extract_step_match, lemma_extract_step_none, try_parse};
use crate::text::{is_ws, ws_f, not_nl_f, scan_while, str_chars, chars_string, copy_range,
    scan_to_nl, is_ws_e};

verus! {

/// Whether a version-constraint text is a valid version requirement of
/// the target ecosystem. The answer is a fixed function of the text.
pub uninterp spec fn semver_ok(s: Seq<char>) -> bool;

/// Relies on semver::VersionReq::parse: whether a requirement text
/// parses depends on the text alone; the bare wildcard `*` parses
/// (semver documents VersionReq::STAR as the parse of `*`).
#[verifier::external_body]
fn version_req_is_valid(s: &str) -> (r: bool)
    ensures
        r == semver_ok(s@),
        s@ == seq!['*'] ==> r,
{
    semver::VersionReq::parse(s).is_ok()
}

/// One dependency declaration, materialized: import name, package alias,
/// version constraint, and the top-level-export marker. Only
/// declarations whose constraint is a valid version requirement exist.
pub struct CrateImport {
    name: String,
    package_name: String,
    version: String,
    macro_use: bool,
}

impl View for CrateImport {
    type V = Decl;

    closed spec fn view(&self) -> Decl {
        Decl {
            name: self.name@,
            package_name: self.package_name@,
            version: self.version@,
            macro_use: self.macro_use,
        }
    }
}

/// The models of a run of materialized declarations, in order.
pub open spec fn decls_of(cs: Seq<CrateImport>) -> Seq<Decl> {
    cs.map(|k: int, c: CrateImport| c@)
}

/// Every declaration's version constraint is a valid requirement.
pub open spec fn all_versions_ok(ds: Seq<Decl>) -> bool {
    forall|k: int| 0 <= k < ds.len() ==> semver_ok(#[trigger] ds[k].version)
}

impl CrateImport {
    /// Well-formedness: a materialized declaration always carries a
    /// valid version constraint. The constructor establishes it; no
    /// other way to build one exists.
    pub open spec fn wf(self) -> bool {
        semver_ok(self@.version)
    }

    /// Builds one declaration, validating the version constraint before
    /// any filesystem mutation: an invalid constraint is a manifest
    /// error, exactly then.
    pub fn new(name: &str, package_name: &str, version: &str, macro_use: bool) -> (r: Result<
        Self,
        Error,
    >)
        ensures
            r is Ok <==> semver_ok(version@),
            r matches Ok(c) ==> c@ == (Decl {
                name: name@,
                package_name: package_name@,
                version: version@,
                macro_use,
            }),
            r matches Err(e) ==> e == Error::ManifestError,
            r matches Ok(c) ==> c.wf(),
    {
        if version_req_is_valid(version) {
            Ok(
                CrateImport {
                    name: name.to_owned(),
                    package_name: package_name.to_owned(),
                    version: version.to_owned(),
                    macro_use,
                },
            )
        } else {
            Err(Error::ManifestError)
        }
    }

    /// The manifest entry of one declaration: `alias = "constraint"`.
    pub open spec fn toml_entry(d: Decl) -> Seq<char> {
        d.package_name + " = \""@ + d.version + "\""@
    }

    pub fn to_cargo_toml_format(&self) -> (r: String)
        ensures
            r@ == Self::toml_entry(self@),
    {
        let mut r = self.package_name.clone();
        r.append(" = \"");
        r.append(self.version.as_str());
        r.append("\"");
        proof {
            assert(r@ =~= Self::toml_entry(self@));
        }
        r
    }

    /// The import line of one declaration, as it is reinjected into the
    /// assembled source, carrying the top-level-export marker when set.
    pub open spec fn code_entry(d: Decl) -> Seq<char> {
        (if d.macro_use {
            "#[macro_use] "@
        } else {
            Seq::<char>::empty()
        }) + "extern crate "@ + d.name + ";"@
    }

    pub fn to_code_format(&self) -> (r: String)
        ensures
            r@ == Self::code_entry(self@),
    {
        let mut code = String::new();
        if self.macro_use {
            code.append("#[macro_use] ");
        }
        code.append("extern crate ");
        code.append(self.name.as_str());
        code.append(";");
        proof {
            assert(code@ =~= Self::code_entry(self@));
        }
        code
    }
}

/// Scans the source for dependency declarations: the structured records
/// in order of occurrence, plus the source with every matched span
/// removed and all other characters kept verbatim. Fails with a manifest
/// error exactly when some declaration carries an invalid version
/// constraint; a source without declarations comes back unchanged with
/// an empty list.
pub fn extract_extern_crates(code: &str) -> (r: Result<(Vec<CrateImport>, String), Error>)
    ensures
        r is Ok <==> all_versions_ok(extract_spec(code@).decls),
        r matches Ok(t) ==> decls_of(t.0@) == extract_spec(code@).decls,
        r matches Ok(t) ==> t.1@ == extract_spec(code@).rest,
        r matches Err(e) ==> e == Error::ManifestError,
{
    let v = str_chars(code);
    let ghost s = v@;
    let mut crates: Vec<CrateImport> = Vec::new();
    let mut rest: Vec<char> = Vec::new();
    let mut i: usize = 0;
    while i < v.len()
        invariant
            s == code@,
            v@ == s,
            i <= s.len(),
            extract_spec(s).decls == decls_of(crates@) + extract_from(s, i as int).decls,
            extract_spec(s).rest == rest@ + extract_from(s, i as int).rest,
            all_versions_ok(decls_of(crates@)),
        decreases s.len() - i,
    {
        match try_parse(&v, i) {
            Some(raw) => {
                proof {
                    lemma_parse_end(s, i as int);
                    lemma_extract_step_match(s, i as int);
                }
                let ghost p = parse_at(s, i as int)->Some_0;
                match CrateImport::new(
                    raw.name.as_str(),
                    raw.package_name.as_str(),
                    raw.version.as_str(),
                    raw.macro_use,
                ) {
                    Ok(c) => {
                        proof {
                            assert(c@ =~= p.decl);
                            assert(decls_of(crates@.push(c)) =~= decls_of(crates@) + seq![c@]);
                            assert(decls_of(crates@) + (seq![p.decl] + extract_from(
                                s,
                                p.end,
                            ).decls) =~= (decls_of(crates@) + seq![p.decl]) + extract_from(
                                s,
                                p.end,
                            ).decls);
                        }
                        crates.push(c);
                        i = raw.end;
                    },
                    Err(_) => {
                        proof {
                            let ds = extract_spec(s).decls;
                            let bad = decls_of(crates@).len() as int;
                            assert(ds[bad] == p.decl);
                            assert(!semver_ok(ds[bad].version));
                        }
                        return Err(Error::ManifestError);
                    },
                }
            },
            None => {
                proof {
                    lemma_extract_step_none(s, i as int);
                    assert(rest@ + (seq![s[i as int]] + extract_from(s, i + 1).rest) =~= (rest@
                        + seq![s[i as int]]) + extract_from(s, i + 1).rest);
                }
                rest.push(v[i]);
                i = i + 1;
            },
        }
    }
    proof {
        assert(extract_from(s, i as int).decls =~= Seq::<Decl>::empty());
        assert(extract_from(s, i as int).rest =~= Seq::<char>::empty());
        assert(extract_spec(s).decls =~= decls_of(crates@));
        assert(extract_spec(s).rest =~= rest@);
    }
    let rewritten = chars_string(&rest);
    Ok((crates, rewritten))
}

// ------------------------------------------------------------------
// Source assembly.
// ------------------------------------------------------------------

/// The source without its leading interpreter directive: when the text
/// opens with the two-character directive marker, everything before the
/// first line terminator goes (the terminator stays, and trimming takes
/// it later); otherwise the text is untouched.
pub open spec fn strip_directive(s: Seq<char>) -> Seq<char> {
    if s.len() >= 2 && s[0] == '#' && s[1] == '!' {
        s.subrange(scan_while(s, 0, not_nl_f()), s.len() as int)
    } else {
        s
    }
}

pub fn remove_shebang(code: &str) -> (r: String)
    ensures
        r@ == strip_directive(code@),
{
    let v = str_chars(code);
    let n = v.len();
    let start: usize = if n >= 2 && v[0] == '#' && v[1] == '!' {
        scan_to_nl(&v, 0)
    } else {
        0
    };
    let out = copy_range(&v, start, n);
    proof {
        assert(out@ =~= strip_directive(code@));
    }
    chars_string(&out)
}

/// The index just past the last non-whitespace character of `s[..j]`,
/// or 0 when there is none.
pub open spec fn trim_end_idx(s: Seq<char>, j: int) -> int
    decreases j,
{
    if j <= 0 {
        0
    } else if is_ws(s[j - 1]) {
        trim_end_idx(s, j - 1)
    } else {
        j
    }
}

/// The text without leading and trailing whitespace.
pub open spec fn trim_spec(s: Seq<char>) -> Seq<char> {
    let t = s.subrange(0, trim_end_idx(s, s.len() as int));
    t.subrange(scan_while(t, 0, ws_f()), t.len() as int)
}

fn trim_vec(v: &Vec<char>) -> (r: Vec<char>)
    ensures
        r@ == trim_spec(v@),
{
    let n = v.len();
    let mut b = n;
    while b > 0 && is_ws_e(v[b - 1])
        invariant
            b <= n,
            n == v@.len(),
            trim_end_idx(v@, n as int) == trim_end_idx(v@, b as int),
        decreases b,
    {
        assert(trim_end_idx(v@, b as int) == trim_end_idx(v@, b - 1));
        b = b - 1;
    }
    assert(trim_end_idx(v@, b as int) == b);
    let ghost t = v@.subrange(0, b as int);
    let mut a: usize = 0;
    while a < b && is_ws_e(v[a])
        invariant
            a <= b <= v@.len(),
            t == v@.subrange(0, b as int),
            scan_while(t, 0, ws_f()) == scan_while(t, a as int, ws_f()),
        decreases b - a,
    {
        assert(t[a as int] == v@[a as int]);
        assert(scan_while(t, a as int, ws_f()) == scan_while(t, a + 1, ws_f()));
        a = a + 1;
    }
    proof {
        if a < b {
            assert(t[a as int] == v@[a as int]);
        }
        assert(scan_while(t, a as int, ws_f()) == a);
    }
    let r = copy_range(v, a, b);
    proof {
        assert(r@ =~= trim_spec(v@));
    }
    r
}

/// The body text with a fresh indent after every line terminator: the
/// indentation is for readability only.
pub open spec fn indent_tail(s: Seq<char>) -> Seq<char>
    decreases s.len(),
{
    if s.len() == 0 {
        Seq::empty()
    } else {
        indent_tail(s.drop_last()) + (if s.last() == '\n' {
            seq!['\n', ' ', ' ', ' ', ' ']
        } else {
            seq![s.last()]
        })
    }
}

fn indent_vec(t: &Vec<char>) -> (r: Vec<char>)
    ensures
        r@ == indent_tail(t@),
{
    let mut out: Vec<char> = Vec::new();
    let mut i: usize = 0;
    while i < t.len()
        invariant
            i <= t@.len(),
            out@ == indent_tail(t@.take(i as int)),
        decreases t@.len() - i,
    {
        let c = t[i];
        if c == '\n' {
            out.push('\n');
            out.push(' ');
            out.push(' ');
            out.push(' ');
            out.push(' ');
        } else {
            out.push(c);
        }
        proof {
            assert(t@.take(i + 1).drop_last() =~= t@.take(i as int));
            assert(t@.take(i + 1).last() == t@[i as int]);
            assert(out@ =~= indent_tail(t@.take(i + 1)));
        }
        i = i + 1;
    }
    proof {
        assert(t@.take(t@.len() as int) =~= t@);
    }
    out
}

/// What the entry point wraps: the directive-stripped, trimmed body,
/// indented, with a final line terminator — or nothing when the body is
/// empty.
pub open spec fn wrapped_body(code: Seq<char>) -> Seq<char> {
    let t = trim_spec(strip_directive(code));
    if t.len() == 0 {
        Seq::<char>::empty()
    } else {
        seq![' ', ' ', ' ', ' '] + indent_tail(t) + seq!['\n']
    }
}

fn assemble_body(code: &str) -> (r: String)
    ensures
        r@ == wrapped_body(code@),
{
    let v = str_chars(code);
    let n = v.len();
    let start: usize = if n >= 2 && v[0] == '#' && v[1] == '!' {
        scan_to_nl(&v, 0)
    } else {
        0
    };
    let stripped = copy_range(&v, start, n);
    proof {
        assert(stripped@ =~= strip_directive(code@));
    }
    let trimmed = trim_vec(&stripped);
    if trimmed.len() == 0 {
        String::new()
    } else {
        let mut out: Vec<char> = Vec::new();
        out.push(' ');
        out.push(' ');
        out.push(' ');
        out.push(' ');
        let mut ind = indent_vec(&trimmed);
        out.append(&mut ind);
        out.push('\n');
        proof {
            assert(out@ =~= wrapped_body(code@));
        }
        chars_string(&out)
    }
}

/// The import lines of the declarations, in extraction order, one per
/// line.
pub open spec fn code_entries(ds: Seq<Decl>) -> Seq<char>
    decreases ds.len(),
{
    if ds.len() == 0 {
        Seq::empty()
    } else {
        code_entries(ds.drop_last()) + CrateImport::code_entry(ds.last()) + seq!['\n']
    }
}

/// The final compilable source: the import lines, then the body wrapped
/// inside an explicit program entry point.
pub open spec fn format_code_spec(ds: Seq<Decl>, code: Seq<char>) -> Seq<char> {
    code_entries(ds) + "fn main() {\n"@ + wrapped_body(code) + "}\n"@
}

pub fn format_code(extern_crates: &Vec<CrateImport>, code: &str) -> (r: String)
    ensures
        r@ == format_code_spec(decls_of(extern_crates@), code@),
{
    let ghost ds = decls_of(extern_crates@);
    let mut output_code = String::new();
    let mut idx: usize = 0;
    while idx < extern_crates.len()
        invariant
            idx <= extern_crates@.len(),
            ds == decls_of(extern_crates@),
            output_code@ == code_entries(ds.take(idx as int)),
        decreases extern_crates@.len() - idx,
    {
        let line = extern_crates[idx].to_code_format();
        output_code.append(line.as_str());
        output_code.append("\n");
        proof {
            reveal_strlit("\n");
            assert("\n"@ =~= seq!['\n']);
            assert(ds.take(idx + 1).drop_last() =~= ds.take(idx as int));
            assert(ds.take(idx + 1).last() == ds[idx as int]);
            assert(output_code@ =~= code_entries(ds.take(idx + 1)));
        }
        idx = idx + 1;
    }
    proof {
        assert(ds.take(ds.len() as int) =~= ds);
    }
    output_code.append("fn main() {\n");
    let body = assemble_body(code);
    output_code.append(body.as_str());
    output_code.append("}\n");
    proof {
        assert(output_code@ =~= format_code_spec(ds, code@));
    }
    output_code
}

/// The project name: the script's file name with every `.` replaced by
/// `_`.
pub open spec fn project_name_spec(file_name: Seq<char>) -> Seq<char> {
    file_name.map_values(|c: char| if c == '.' { '_' } else { c })
}

fn project_name(file_name: &str) -> (r: String)
    ensures
        r@ == project_name_spec(file_name@),
{
    let v = str_chars(file_name);
    let ghost f = |c: char| if c == '.' { '_' } else { c };
    let mut out: Vec<char> = Vec::new();
    let mut i: usize = 0;
    while i < v.len()
        invariant
            i <= v@.len(),
            v@ == file_name@,
            out@ == v@.take(i as int).map_values(|c: char| if c == '.' { '_' } else { c }),
        decreases v@.len() - i,
    {
        let c = v[i];
        if c == '.' {
            out.push('_');
        } else {
            out.push(c);
        }
        proof {
            assert(v@.take(i + 1).map_values(|c: char| if c == '.' { '_' } else { c }) =~= v@.take(
                i as int,
            ).map_values(|c: char| if c == '.' { '_' } else { c }).push(
                if v@[i as int] == '.' { '_' } else { v@[i as int] },
            ));
        }
        i = i + 1;
    }
    proof {
        assert(v@.take(v@.len() as int) =~= v@);
    }
    chars_string(&out)
}

/// The manifest entries of the declarations, in order, one per line.
pub open spec fn toml_entries(ds: Seq<Decl>) -> Seq<char>
    decreases ds.len(),
{
    if ds.len() == 0 {
        Seq::empty()
    } else {
        toml_entries(ds.drop_last()) + CrateImport::toml_entry(ds.last()) + seq!['\n']
    }
}

/// The whole build manifest: a project section naming the project (with
/// a placeholder version), a single fixed-name binary target, and one
/// dependency entry per declaration.
pub open spec fn create_toml_spec(file_name: Seq<char>, ds: Seq<Decl>) -> Seq<char> {
    "[package]\nname = \""@ + project_name_spec(file_name)
        + "\"\nversion = \"0.0.0\"\n\n[[bin]]\nname = \"bin\"\n\n[dependencies]\n"@ + toml_entries(
        ds,
    )
}

pub fn create_toml(script_name: &str, extern_crates: &Vec<CrateImport>) -> (r: String)
    ensures
        r@ == create_toml_spec(script_name@, decls_of(extern_crates@)),
{
    let ghost ds = decls_of(extern_crates@);
    let mut toml = String::new();
    toml.append("[package]\nname = \"");
    let name = project_name(script_name);
    toml.append(name.as_str());
    toml.append("\"\nversion = \"0.0.0\"\n\n[[bin]]\nname = \"bin\"\n\n[dependencies]\n");
    let ghost header = toml@;
    let mut idx: usize = 0;
    while idx < extern_crates.len()
        invariant
            idx <= extern_crates@.len(),
            ds == decls_of(extern_crates@),
            toml@ == header + toml_entries(ds.take(idx as int)),
            header == "[package]\nname = \""@ + project_name_spec(script_name@)
                + "\"\nversion = \"0.0.0\"\n\n[[bin]]\nname = \"bin\"\n\n[dependencies]\n"@,
        decreases extern_crates@.len() - idx,
    {
        let line = extern_crates[idx].to_cargo_toml_format();
        toml.append(line.as_str());
        toml.append("\n");
        proof {
            reveal_strlit("\n");
            assert("\n"@ =~= seq!['\n']);
            assert(ds.take(idx + 1).drop_last() =~= ds.take(idx as int));
            assert(ds.take(idx + 1).last() == ds[idx as int]);
            assert(toml@ =~= header + toml_entries(ds.take(idx + 1)));
        }
        idx = idx + 1;
    }
    proof {
        assert(ds.take(ds.len() as int) =~= ds);
        assert(toml@ =~= create_toml_spec(script_name@, ds));
    }
    toml
}

/// Everything the build workspace must hold for one script: the
/// assembled main source and the synthesized build manifest.
pub struct BuildPlan {
    pub main_source: String,
    pub cargo_manifest: String,
}

/// How the build tool's termination is judged. Success is exactly exit
/// code zero; any other termination — a nonzero code, or none at all —
/// is a build error, reported after the captured diagnostics replay.
pub fn compile_verdict(exit_code: Option<i32>) -> (r: Result<(), Error>)
    ensures
        r is Ok <==> exit_code == Some(0i32),
        r matches Err(e) ==> e == Error::BuildError,
{
    match exit_code {
        Some(c) => {
            if c == 0 {
                Ok(())
            } else {
                Err(Error::BuildError)
            }
        },
        None => Err(Error::BuildError),
    }
}

/// The compute half of one build: extracts the declarations, assembles
/// the final source from the rewritten text, and synthesizes the
/// manifest from the script's file name. Fails with a manifest error
/// exactly when a declared version constraint is invalid, before
/// anything would touch the filesystem.
pub fn prepare_build(script_name: &str, code: &str) -> (r: Result<BuildPlan, Error>)
    ensures
        r is Ok <==> all_versions_ok(extract_spec(code@).decls),
        r matches Ok(p) ==> p.main_source@ == format_code_spec(
            extract_spec(code@).decls,
            extract_spec(code@).rest,
        ),
        r matches Ok(p) ==> p.cargo_manifest@ == create_toml_spec(
            script_name@,
            extract_spec(code@).decls,
        ),
        r matches Err(e) ==> e == Error::ManifestError,
{
    match extract_extern_crates(code) {
        Ok((crates, rewritten)) => {
            let main_source = format_code(&crates, rewritten.as_str());
            let cargo_manifest = create_toml(script_name, &crates);
            Ok(BuildPlan { main_source, cargo_manifest })
        },
        Err(e) => Err(e),
    }
}

} // verus!
