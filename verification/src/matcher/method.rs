//! Filter on the HTTP verb of a parsed request, case-insensitively.

use crate::context::{Context, Request};
use vstd::prelude::*;

verus! {

/// ASCII lower-case image of a byte: letters fold, everything else stays.
pub open spec fn spec_ascii_lower(c: u8) -> u8 {
    if 65 <= c && c <= 90 {
        (c + 32) as u8
    } else {
        c
    }
}

/// ASCII lower-case image of a byte sequence.
pub open spec fn spec_lower(s: Seq<u8>) -> Seq<u8> {
    s.map_values(|c: u8| spec_ascii_lower(c))
}

/// Filter matching a request whose verb equals the configured verb up to
/// ASCII case.
#[derive(Clone, Debug)]
pub struct MethodFilter {
    verb: Vec<u8>,
}

impl MethodFilter {
    pub closed spec fn spec_verb(&self) -> Seq<u8> {
        self.verb@
    }

    /// What the filter decides for a request verb: equality of the folded
    /// forms.
    pub open spec fn spec_matches(&self, method: Seq<u8>) -> bool {
        spec_lower(method) == spec_lower(self.spec_verb())
    }

    pub fn new(verb: Vec<u8>) -> (r: Self)
        ensures
            r.spec_verb() == verb@,
    {
        MethodFilter { verb }
    }

    /// Match a parsed-request subject against its verb.
    pub fn matches<State>(&self, _ctx: &Context<State>, req: &Request) -> (r: bool)
        ensures
            r == self.spec_matches(req.spec_method()),
    {
        bytes_eq_ignore_ascii_case(req.method(), &self.verb)
    }
}

/// Compare two byte sequences up to ASCII case.
pub fn bytes_eq_ignore_ascii_case(a: &Vec<u8>, b: &Vec<u8>) -> (r: bool)
    ensures
        r == (spec_lower(a@) == spec_lower(b@)),
{
    if a.len() != b.len() {
        proof {
            assert(spec_lower(a@).len() == a@.len());
            assert(spec_lower(b@).len() == b@.len());
        }
        return false;
    }
    let n = a.len();
    let mut i: usize = 0;
    while i < n
        invariant
            i <= n,
            n == a@.len() == b@.len(),
            forall|k: int| 0 <= k < i ==> spec_ascii_lower(a@[k]) == spec_ascii_lower(b@[k]),
        decreases n - i,
    {
        let ca = a[i];
        let cb = b[i];
        let la = if 65 <= ca && ca <= 90 {
            ca + 32
        } else {
            ca
        };
        let lb = if 65 <= cb && cb <= 90 {
            cb + 32
        } else {
            cb
        };
        if la != lb {
            proof {
                assert(spec_lower(a@)[i as int] != spec_lower(b@)[i as int]);
            }
            return false;
        }
        i = i + 1;
    }
    proof {
        assert(spec_lower(a@) =~= spec_lower(b@));
    }
    true
}

} // verus!
