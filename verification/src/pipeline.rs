use vstd::prelude::*;

verus! {

/// The stored content-fingerprint marker, as a mathematical value:
/// `None` when no marker has ever been written.
pub open spec fn marker_view(m: Option<String>) -> Option<Seq<char>> {
    match m {
        None => None,
        Some(s) => Some(s@),
    }
}

/// Freshness, inverted: a build is needed exactly when the artifact is
/// missing, or a rebuild is forced, or the stored marker does not equal
/// the freshly computed content fingerprint.
pub open spec fn build_needed(
    artifact_exists: bool,
    force: bool,
    cached: Option<Seq<char>>,
    current: Seq<char>,
) -> bool {
    !artifact_exists || force || cached != Some(current)
}

/// The pipeline's branch between `FRESH: run` and `STALE/MISSING: build`.
pub fn should_build(
    artifact_exists: bool,
    force: bool,
    cached: &Option<String>,
    current: &String,
) -> (r: bool)
    ensures
        r == build_needed(artifact_exists, force, marker_view(*cached), current@),
{
    if !artifact_exists || force {
        true
    } else {
        match cached {
            None => true,
            Some(c) => {
                let same = *c == *current;
                proof {
                    assert(same <==> marker_view(*cached) == Some(current@));
                }
                !same
            },
        }
    }
}

/// The marker after a build attempt: a successful build records the
/// fingerprint that was built; a failed build leaves the marker exactly
/// as it was, so the next invocation retries instead of trusting it.
pub fn marker_after(cached: Option<String>, built_ok: bool, current: &String) -> (r: Option<
    String,
>)
    ensures
        built_ok ==> marker_view(r) == Some(current@),
        !built_ok ==> marker_view(r) == marker_view(cached),
{
    if built_ok {
        Some(current.clone())
    } else {
        cached
    }
}

/// Cache reuse: once a build has succeeded (the marker holds the current
/// fingerprint) and the artifact exists, an unforced invocation on the
/// unchanged script needs no build and goes straight to running.
pub proof fn lemma_cache_reuse(current: Seq<char>)
    ensures
        !build_needed(true, false, Some(current), current),
{
}

/// Forced rebuild: with the force flag the build runs whatever the
/// marker holds, even an unchanged content fingerprint.
pub proof fn lemma_forced_rebuild(
    artifact_exists: bool,
    cached: Option<Seq<char>>,
    current: Seq<char>,
)
    ensures
        build_needed(artifact_exists, true, cached, current),
{
}

/// A stale marker triggers a build: whenever the stored marker differs
/// from the current content fingerprint — because a byte of the script
/// changed its fingerprint, or because a failed build left the marker
/// untouched — the next unforced invocation rebuilds.
pub proof fn lemma_stale_marker_rebuilds(
    artifact_exists: bool,
    cached: Option<Seq<char>>,
    current: Seq<char>,
)
    requires
        cached != Some(current),
    ensures
        build_needed(artifact_exists, false, cached, current),
{
}

} // verus!
