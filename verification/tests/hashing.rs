use rustscript::hash::{hash, hash_script};

#[test]
fn digest_is_sha256_hex() {
    assert_eq!(
        hash(b"abc"),
        "ba7816bf8f01cfea414140de5dae2223b00361a396177a9cb410ff61f20015ad"
    );
}

#[test]
fn digest_has_64_hex_characters() {
    assert_eq!(hash(b"").len(), 64);
    assert_eq!(
        hash(b""),
        "e3b0c44298fc1c149afbf4c8996fb92427ae41e4649b934ca495991b7852b855"
    );
}

#[test]
fn identity_determinism() {
    let first = hash_script(b"/tmp/script.rs", b"fn x() {}");
    let second = hash_script(b"/tmp/script.rs", b"fn x() {}");
    assert_eq!(first, second);
}

#[test]
fn content_sensitivity() {
    let (_, c1) = hash_script(b"/tmp/script.rs", b"println(1)");
    let (_, c2) = hash_script(b"/tmp/script.rs", b"println(2)");
    assert_ne!(c1, c2);
}

#[test]
fn path_independence() {
    let (p1, c1) = hash_script(b"/tmp/a.rs", b"same bytes");
    let (p2, c2) = hash_script(b"/tmp/b.rs", b"same bytes");
    assert_eq!(c1, c2);
    assert_ne!(p1, p2);
}
