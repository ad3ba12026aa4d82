use vstd::prelude::*;

verus! {

/// The artifact cache: maps a path fingerprint to a persistent per-script
/// workspace directory under one cache root. The root is resolved once at
/// startup (a platform lookup, outside this library) and injected here;
/// creating the directory on disk is the caller's part.
pub struct BinCache {
    cache_dir: String,
}

impl BinCache {
    /// The cache root this cache was built over.
    pub closed spec fn root(&self) -> Seq<char> {
        self.cache_dir@
    }

    pub fn new(cache_dir: String) -> (r: Self)
        ensures
            r.root() == cache_dir@,
    {
        BinCache { cache_dir }
    }

    /// The workspace path for one path fingerprint: `<root>/<hash>`.
    /// Same root and same fingerprint always name the same workspace.
    pub fn get(&self, hash: String) -> (r: String)
        ensures
            r@ == self.root() + seq!['/'] + hash@,
    {
        let mut path = self.cache_dir.clone();
        path.append("/");
        path.append(hash.as_str());
        proof {
            reveal_strlit("/");
            assert(path@ =~= self.root() + seq!['/'] + hash@);
        }
        path
    }
}

/// Separate workspaces: under one cache root, distinct path
/// fingerprints always name distinct workspace paths.
pub proof fn lemma_distinct_workspaces(root: Seq<char>, h1: Seq<char>, h2: Seq<char>)
    requires
        h1 != h2,
    ensures
        root + seq!['/'] + h1 != root + seq!['/'] + h2,
{
    if root + seq!['/'] + h1 == root + seq!['/'] + h2 {
        assert((root + seq!['/'] + h1).len() == root.len() + 1 + h1.len());
        assert((root + seq!['/'] + h2).len() == root.len() + 1 + h2.len());
        assert(h1.len() == h2.len());
        assert forall|k: int| 0 <= k < h1.len() implies h1[k] == h2[k] by {
            assert((root + seq!['/'] + h1)[root.len() + 1 + k] == h1[k]);
            assert((root + seq!['/'] + h2)[root.len() + 1 + k] == h2[k]);
        }
        assert(h1 =~= h2);
    }
}

} // verus!
