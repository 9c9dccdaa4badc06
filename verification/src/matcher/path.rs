//! Filter on the URI path of a parsed request, with a trailing-star glob.

use crate::context::{Context, Extensions, ExtensionsView, Request};
use vstd::prelude::*;

verus! {

/// Byte values of the glob star and the path separator.
pub const STAR: u8 = 42;

pub const PATH_SLASH: u8 = 47;

/// Whether `prefix` is a prefix of `s`.
pub open spec fn spec_starts_with(s: Seq<u8>, prefix: Seq<u8>) -> bool {
    s.len() >= prefix.len() && s.subrange(0, prefix.len() as int) == prefix
}

/// Glob match: a pattern ending in `*` matches every path that begins with
/// the pattern minus the star (so `/api/*` asks for the separator and then
/// any suffix, including the empty one); any other pattern matches exactly
/// itself.
pub open spec fn spec_glob_matches(pat: Seq<u8>, path: Seq<u8>) -> bool {
    if pat.len() > 0 && pat.last() == STAR {
        spec_starts_with(path, pat.drop_last())
    } else {
        path == pat
    }
}

/// Filter matching a request whose path the configured glob pattern matches.
/// On success the suffix the star stood for is what a scratch capture
/// records.
#[derive(Clone, Debug)]
pub struct PathFilter {
    pattern: Vec<u8>,
}

impl PathFilter {
    pub closed spec fn spec_pattern(&self) -> Seq<u8> {
        self.pattern@
    }

    /// What the filter decides for a request path.
    pub open spec fn spec_matches(&self, path: Seq<u8>) -> bool {
        spec_glob_matches(self.spec_pattern(), path)
    }

    pub fn new(pattern: Vec<u8>) -> (r: Self)
        ensures
            r.spec_pattern() == pattern@,
    {
        PathFilter { pattern }
    }

    /// Match a parsed-request subject against its path.
    pub fn matches<State>(&self, _ctx: &Context<State>, req: &Request) -> (r: bool)
        ensures
            r == self.spec_matches(req.spec_path()),
    {
        glob_matches(&self.pattern, req.path())
    }

    /// Whether the pattern ends in the glob star.
    pub open spec fn spec_is_glob(&self) -> bool {
        self.spec_pattern().len() > 0 && self.spec_pattern().last() == STAR
    }

    /// The path suffix the star stood for in a successful glob match.
    pub open spec fn spec_capture(&self, path: Seq<u8>) -> Seq<u8> {
        path.skip(self.spec_pattern().len() - 1)
    }

    /// The scratch a successful match commits: a glob match records the
    /// captured suffix; an exact match records nothing.
    pub open spec fn spec_commit(&self, ext: ExtensionsView, path: Seq<u8>) -> ExtensionsView {
        if self.spec_is_glob() {
            ExtensionsView { path_capture: Some(self.spec_capture(path)), ..ext }
        } else {
            ext
        }
    }

    /// Record the captured suffix of a successful match into the scratch.
    pub fn apply_capture(&self, req: &Request, ext: &mut Extensions)
        requires
            self.spec_matches(req.spec_path()),
        ensures
            final(ext)@ == self.spec_commit(old(ext)@, req.spec_path()),
    {
        let n = self.pattern.len();
        if n > 0 && self.pattern[n - 1] == STAR {
            let path = req.path();
            let stem = n - 1;
            let mut suffix: Vec<u8> = Vec::new();
            let mut i: usize = stem;
            while i < path.len()
                invariant
                    stem <= i <= path@.len(),
                    suffix@ =~= path@.subrange(stem as int, i as int),
                decreases path@.len() - i,
            {
                suffix.push(path[i]);
                i = i + 1;
            }
            proof {
                assert(suffix@ =~= self.spec_capture(req.spec_path()));
            }
            ext.insert_path_capture(suffix);
        }
    }
}

/// Decide a glob match of a pattern against a path.
pub fn glob_matches(pat: &Vec<u8>, path: &Vec<u8>) -> (r: bool)
    ensures
        r == spec_glob_matches(pat@, path@),
{
    let n = pat.len();
    if n > 0 && pat[n - 1] == STAR {
        if path.len() < n - 1 {
            return false;
        }
        let mut i: usize = 0;
        while i < n - 1
            invariant
                i <= n - 1,
                n == pat@.len(),
                n >= 1,
                pat@[n - 1] == STAR,
                path@.len() >= n - 1,
                forall|k: int| 0 <= k < i ==> path@[k] == pat@[k],
            decreases n - 1 - i,
        {
            if path[i] != pat[i] {
                proof {
                    assert(path@.subrange(0, n - 1)[i as int] != pat@.drop_last()[i as int]);
                }
                return false;
            }
            i = i + 1;
        }
        proof {
            assert(path@.subrange(0, n - 1) =~= pat@.drop_last());
        }
        true
    } else {
        bytes_eq(pat, path)
    }
}

/// Compare two byte sequences.
pub fn bytes_eq(a: &Vec<u8>, b: &Vec<u8>) -> (r: bool)
    ensures
        r == (a@ == b@),
{
    if a.len() != b.len() {
        return false;
    }
    let n = a.len();
    let mut i: usize = 0;
    while i < n
        invariant
            i <= n,
            n == a@.len() == b@.len(),
            forall|k: int| 0 <= k < i ==> a@[k] == b@[k],
        decreases n - i,
    {
        if a[i] != b[i] {
            return false;
        }
        i = i + 1;
    }
    proof {
        assert(a@ =~= b@);
    }
    true
}

/// Glob path law: for a pattern `q` + `"/*"`, the matched set is exactly the
/// paths that extend `q` + `"/"`; in particular the pattern never matches
/// `q` itself.
pub proof fn lemma_glob_slash_star(q: Seq<u8>, path: Seq<u8>)
    ensures
        spec_glob_matches(q + seq![PATH_SLASH, STAR], path) <==> (path != q && spec_starts_with(
            path,
            q + seq![PATH_SLASH],
        )),
{
    let pat = q + seq![PATH_SLASH, STAR];
    assert(pat.last() == STAR);
    assert(pat.drop_last() =~= q + seq![PATH_SLASH]);
    if spec_starts_with(path, q + seq![PATH_SLASH]) {
        assert(path.len() > q.len());
    }
}

} // verus!
