use rustscript::errors::Error;
use rustscript::scriptbuilder::{extract_extern_crates, CrateImport};

#[test]
fn round_trip_constraints() {
    let src = "extern crate foo;\nextern crate bar[1.2];\nprintln!(\"hi\");\n";
    let (crates, rewritten) = extract_extern_crates(src).unwrap();
    assert_eq!(crates.len(), 2);
    assert_eq!(crates[0].to_cargo_toml_format(), "foo = \"*\"");
    assert_eq!(crates[1].to_cargo_toml_format(), "bar = \"1.2\"");
    assert_eq!(rewritten, "\n\nprintln!(\"hi\");\n");
}

#[test]
fn extraction_idempotent_on_rewritten() {
    let src = "extern crate foo;\nextern crate bar[1.2];\nprintln!(\"hi\");\n";
    let (_, rewritten) = extract_extern_crates(src).unwrap();
    let (again, rewritten_twice) = extract_extern_crates(&rewritten).unwrap();
    assert_eq!(again.len(), 0);
    assert_eq!(rewritten_twice, rewritten);
}

#[test]
fn empty_source_yields_nothing() {
    let (crates, rewritten) = extract_extern_crates("").unwrap();
    assert_eq!(crates.len(), 0);
    assert_eq!(rewritten, "");
}

#[test]
fn no_declarations_means_unchanged_source() {
    let src = "fn not_a_declaration() { let x = 1; }";
    let (crates, rewritten) = extract_extern_crates(src).unwrap();
    assert_eq!(crates.len(), 0);
    assert_eq!(rewritten, src);
}

#[test]
fn aliased_declaration() {
    let src = "extern crate baz[pkg;2.0];";
    let (crates, rewritten) = extract_extern_crates(src).unwrap();
    assert_eq!(crates.len(), 1);
    assert_eq!(crates[0].to_cargo_toml_format(), "pkg = \"2.0\"");
    assert_eq!(crates[0].to_code_format(), "extern crate baz;");
    assert_eq!(rewritten, "");
}

#[test]
fn top_level_export_marker() {
    let src = "#[macro_use] extern crate serde;\nrest";
    let (crates, rewritten) = extract_extern_crates(src).unwrap();
    assert_eq!(crates.len(), 1);
    assert_eq!(crates[0].to_code_format(), "#[macro_use] extern crate serde;");
    assert_eq!(rewritten, "\nrest");
}

#[test]
fn invalid_version_is_manifest_error() {
    let src = "extern crate foo[not a version];";
    match extract_extern_crates(src) {
        Err(e) => assert_eq!(e, Error::ManifestError),
        Ok(_) => panic!("an invalid version constraint must be refused"),
    }
}

#[test]
fn new_validates_the_version_constraint() {
    assert!(CrateImport::new("a", "a", "1.2", false).is_ok());
    assert!(CrateImport::new("a", "a", "*", false).is_ok());
    match CrateImport::new("a", "a", "nope!!", false) {
        Err(e) => assert_eq!(e, Error::ManifestError),
        Ok(_) => panic!("an invalid version constraint must be refused"),
    }
}
