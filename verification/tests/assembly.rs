use rustscript::scriptbuilder::{
    create_toml, extract_extern_crates, format_code, prepare_build, remove_shebang,
};
use rustscript::errors::Error;

#[test]
fn directive_stripping() {
    let out = format_code(&Vec::new(), "#!/usr/bin/env tool\nprintln(\"hi\")");
    assert_eq!(out, "fn main() {\n    println(\"hi\")\n}\n");
}

#[test]
fn remove_shebang_cases() {
    assert_eq!(remove_shebang("#!x\nbody"), "\nbody");
    assert_eq!(remove_shebang("body"), "body");
    assert_eq!(remove_shebang("#!only a directive"), "");
    assert_eq!(remove_shebang("#x\nkept"), "#x\nkept");
}

#[test]
fn format_code_indents_every_line() {
    let out = format_code(&Vec::new(), "a\nb");
    assert_eq!(out, "fn main() {\n    a\n    b\n}\n");
}

#[test]
fn format_code_with_empty_body() {
    let out = format_code(&Vec::new(), "   \n \t ");
    assert_eq!(out, "fn main() {\n}\n");
    assert_eq!(format_code(&Vec::new(), ""), "fn main() {\n}\n");
}

#[test]
fn format_code_reinjects_import_lines() {
    let (crates, rewritten) =
        extract_extern_crates("#[macro_use] extern crate serde;\nuse_it()").unwrap();
    let out = format_code(&crates, &rewritten);
    assert_eq!(
        out,
        "#[macro_use] extern crate serde;\nfn main() {\n    use_it()\n}\n"
    );
}

#[test]
fn manifest_text_exact() {
    let (crates, _) =
        extract_extern_crates("extern crate foo;\nextern crate bar[1.2];").unwrap();
    let toml = create_toml("my.script.rs", &crates);
    assert_eq!(
        toml,
        "[package]\nname = \"my_script_rs\"\nversion = \"0.0.0\"\n\n[[bin]]\nname = \"bin\"\n\n[dependencies]\nfoo = \"*\"\nbar = \"1.2\"\n"
    );
}

#[test]
fn manifest_without_dependencies() {
    let toml = create_toml("s.rs", &Vec::new());
    assert_eq!(
        toml,
        "[package]\nname = \"s_rs\"\nversion = \"0.0.0\"\n\n[[bin]]\nname = \"bin\"\n\n[dependencies]\n"
    );
}

#[test]
fn prepare_build_full_round_trip() {
    let code = "#!/usr/bin/env tool\nextern crate foo;\nextern crate bar[1.2];\nprintln!(\"{}\", 1)";
    let plan = prepare_build("s.rs", code).unwrap();
    assert_eq!(
        plan.main_source,
        "extern crate foo;\nextern crate bar;\nfn main() {\n    println!(\"{}\", 1)\n}\n"
    );
    assert_eq!(
        plan.cargo_manifest,
        "[package]\nname = \"s_rs\"\nversion = \"0.0.0\"\n\n[[bin]]\nname = \"bin\"\n\n[dependencies]\nfoo = \"*\"\nbar = \"1.2\"\n"
    );
    assert!(!plan.main_source.contains("bar[1.2]"));
}

#[test]
fn prepare_build_refuses_bad_constraint() {
    match prepare_build("s.rs", "extern crate foo[??bad??];") {
        Err(e) => assert_eq!(e, Error::ManifestError),
        Ok(_) => panic!("an invalid version constraint must be refused"),
    }
}
