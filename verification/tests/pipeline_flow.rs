use rustscript::cache::BinCache;
use rustscript::errors::Error;
use rustscript::hash::hash;
use rustscript::pipeline::{marker_after, should_build};
use rustscript::runner::{termination_of, Termination};
use rustscript::scriptbuilder::compile_verdict;

#[test]
fn compile_verdict_requires_exit_zero() {
    assert!(compile_verdict(Some(0)).is_ok());
    match compile_verdict(Some(101)) {
        Err(e) => assert_eq!(e, Error::BuildError),
        Ok(_) => panic!("a nonzero exit code must be a build error"),
    }
    match compile_verdict(None) {
        Err(e) => assert_eq!(e, Error::BuildError),
        Ok(_) => panic!("a signal-terminated build must be a build error"),
    }
}

#[test]
fn cache_reuse_across_two_runs() {
    let fp = hash(b"script body");
    // first run: no marker, no artifact -> build
    assert!(should_build(false, false, &None, &fp));
    let marker = marker_after(None, true, &fp);
    // second run on the unchanged script -> straight to running
    assert!(!should_build(true, false, &marker, &fp));
}

#[test]
fn forced_rebuild_ignores_fresh_marker() {
    let fp = hash(b"script body");
    let marker = Some(fp.clone());
    assert!(should_build(true, true, &marker, &fp));
}

#[test]
fn changed_content_triggers_rebuild() {
    let old_fp = hash(b"version one");
    let new_fp = hash(b"version two");
    assert!(should_build(true, false, &Some(old_fp), &new_fp));
}

#[test]
fn missing_artifact_triggers_rebuild() {
    let fp = hash(b"script body");
    assert!(should_build(false, false, &Some(fp.clone()), &fp));
}

#[test]
fn failed_build_leaves_marker_stale() {
    let broken_fp = hash(b"broken body");
    // a failed build attempt must not record the fingerprint
    let marker = marker_after(None, false, &broken_fp);
    assert_eq!(marker, None);
    // the fixed script is rebuilt on the next run
    let fixed_fp = hash(b"fixed body");
    assert!(should_build(true, false, &marker, &fixed_fp));
}

#[test]
fn exit_code_fidelity() {
    assert_eq!(termination_of(Some(7), None), Termination::Code(7));
    assert_eq!(termination_of(Some(0), Some(9)), Termination::Code(0));
    assert_eq!(termination_of(None, Some(9)), Termination::Signal(9));
}

#[test]
fn workspace_path_is_root_slash_fingerprint() {
    let cache = BinCache::new(String::from("/home/u/.cache/rustscript"));
    let ws = cache.get(String::from("0a1b2c"));
    assert_eq!(ws, "/home/u/.cache/rustscript/0a1b2c");
}

#[test]
fn error_messages_name_the_kind() {
    assert_eq!(Error::BuildError.message(), "The script did not compile successfully");
    assert_ne!(Error::ReadError.message(), Error::WriteError.message());
}
