//! Predicates over a call and its peer endpoint, and their combinators.

pub mod ip;
pub mod loopback;
pub mod method;
pub mod path;
pub mod port;
pub mod socket;

pub use ip::{IntoIpNet, IpNetFilter, Sealed};
pub use loopback::LoopbackFilter;
pub use method::MethodFilter;
pub use path::PathFilter;
pub use port::PortFilter;
pub use socket::SocketAddressFilter;

use crate::context::{Context, Extensions, ExtensionsView, Request};
use crate::net::SocketAddr;
use vstd::prelude::*;

verus! {


/// A composable predicate over a call: a peer-address or request leaf, or a
/// combinator. `all` short-circuits on the first false child, `any` on the
/// first true one, and `negate` inverts its child.
#[derive(Debug)]
pub enum Matcher {
    SocketAddress(SocketAddressFilter),
    IpNet(IpNetFilter),
    Port(PortFilter),
    Loopback(LoopbackFilter),
    Method(MethodFilter),
    Path(PathFilter),
    All(Vec<Matcher>),
    Any(Vec<Matcher>),
    Not(Box<Matcher>),
}

impl Matcher {
    /// What the matcher decides for a resolved peer and a request.
    pub open spec fn spec_matches(self, peer: Option<SocketAddr>, req: Request) -> bool
        decreases self, 0int, 0int,
    {
        match self {
            Matcher::SocketAddress(f) => f.spec_matches(peer),
            Matcher::IpNet(f) => f.spec_matches(peer),
            Matcher::Port(f) => f.spec_matches(peer),
            Matcher::Loopback(f) => f.spec_matches(peer),
            Matcher::Method(f) => f.spec_matches(req.spec_method()),
            Matcher::Path(f) => f.spec_matches(req.spec_path()),
            Matcher::All(ms) => spec_all_from(ms@, 0, peer, req),
            Matcher::Any(ms) => spec_any_from(ms@, 0, peer, req),
            Matcher::Not(m) => !(*m).spec_matches(peer, req),
        }
    }

    /// Every filter of the enum is well formed; only the network filter
    /// carries an invariant.
    pub open spec fn wf(self) -> bool
        decreases self, 0int, 0int,
    {
        match self {
            Matcher::IpNet(f) => f.wf(),
            Matcher::All(ms) => spec_all_wf(ms@, 0),
            Matcher::Any(ms) => spec_all_wf(ms@, 0),
            Matcher::Not(m) => (*m).wf(),
            _ => true,
        }
    }

    /// The matcher deciding the opposite of this one.
    pub open spec fn spec_negate(self) -> Matcher {
        Matcher::Not(Box::new(self))
    }

    /// Invert the matcher.
    pub fn negate(self) -> (r: Matcher)
        ensures
            r == self.spec_negate(),
    {
        Matcher::Not(Box::new(self))
    }

    /// Conjunction of matchers, evaluated left to right.
    pub fn all(ms: Vec<Matcher>) -> (r: Matcher)
        ensures
            r == Matcher::All(ms),
    {
        Matcher::All(ms)
    }

    /// Disjunction of matchers, evaluated left to right.
    pub fn any(ms: Vec<Matcher>) -> (r: Matcher)
        ensures
            r == Matcher::Any(ms),
    {
        Matcher::Any(ms)
    }


    /// The scratch a successful evaluation commits to the caller's bag:
    /// a glob path leaf records its capture, `all` commits every child in
    /// order, `any` commits its first matching child, and a negation
    /// commits nothing, since its child failed.
    pub open spec fn spec_commit(
        self,
        ext: ExtensionsView,
        peer: Option<SocketAddr>,
        req: Request,
    ) -> ExtensionsView
        decreases self, 0int, 0int,
    {
        match self {
            Matcher::Path(f) => f.spec_commit(ext, req.spec_path()),
            Matcher::All(ms) => spec_commit_all(ms@, 0, ext, peer, req),
            Matcher::Any(ms) => spec_commit_any(ms@, 0, ext, peer, req),
            _ => ext,
        }
    }

    /// Evaluate the matcher with the caller's scratch, under the two-phase
    /// discipline: a failed match leaves the scratch exactly as it was, and
    /// only a successful one commits its sub-matches.
    pub fn evaluate<State>(&self, ctx: &Context<State>, req: &Request, ext: &mut Extensions) -> (r:
        bool)
        requires
            self.wf(),
        ensures
            r == self.spec_matches(ctx.spec_peer(), *req),
            !r ==> final(ext)@ == old(ext)@,
            r ==> final(ext)@ == self.spec_commit(old(ext)@, ctx.spec_peer(), *req),
    {
        let r = self.matches(ctx, req);
        if r {
            self.apply(ctx, req, ext);
        }
        r
    }

    /// Commit the sub-matches of a matcher that is known to match.
    #[verifier::loop_isolation(false)]
    fn apply<State>(&self, ctx: &Context<State>, req: &Request, ext: &mut Extensions)
        requires
            self.wf(),
            self.spec_matches(ctx.spec_peer(), *req),
        ensures
            final(ext)@ == self.spec_commit(old(ext)@, ctx.spec_peer(), *req),
        decreases *self, 0int, 0int,
    {
        match self {
            Matcher::Path(f) => f.apply_capture(req, ext),
            Matcher::All(ms) => {
                let n = ms.len();
                let mut i: usize = 0;
                while i < n
                    invariant
                        i <= n,
                        spec_commit_all(ms@, 0, old(ext)@, ctx.spec_peer(), *req)
                            == spec_commit_all(ms@, i as int, ext@, ctx.spec_peer(), *req),
                    decreases n - i,
                {
                    proof {
                        lemma_all_wf_at(ms@, i as int);
                        lemma_all_from_at(ms@, i as int, ctx.spec_peer(), *req);
                        assert(decreases_to!((*ms) => (*ms)[i as int]));
                        assert(decreases_to!(*self => ms@[i as int]));
                    }
                    ms[i].apply(ctx, req, ext);
                    i = i + 1;
                }
            },
            Matcher::Any(ms) => {
                let n = ms.len();
                let mut i: usize = 0;
                while i < n
                    invariant
                        i <= n,
                        ext@ == old(ext)@,
                        spec_any_from(ms@, i as int, ctx.spec_peer(), *req),
                        spec_commit_any(ms@, 0, old(ext)@, ctx.spec_peer(), *req)
                            == spec_commit_any(ms@, i as int, old(ext)@, ctx.spec_peer(), *req),
                    decreases n - i,
                {
                    proof {
                        lemma_all_wf_at(ms@, i as int);
                        assert(decreases_to!((*ms) => (*ms)[i as int]));
                        assert(decreases_to!(*self => ms@[i as int]));
                    }
                    if ms[i].matches(ctx, req) {
                        ms[i].apply(ctx, req, ext);
                        return ;
                    }
                    i = i + 1;
                }
            },
            _ => {},
        }
    }

    /// Evaluate the matcher on a parsed-request subject; the peer comes from
    /// the context's `SocketInfo` extension.
    #[verifier::loop_isolation(false)]
    pub fn matches<State>(&self, ctx: &Context<State>, req: &Request) -> (r: bool)
        requires
            self.wf(),
        ensures
            r == self.spec_matches(ctx.spec_peer(), *req),
        decreases *self, 0int, 0int,
    {
        match self {
            Matcher::SocketAddress(f) => f.matches(ctx, req),
            Matcher::IpNet(f) => f.matches(ctx, req),
            Matcher::Port(f) => f.matches(ctx, req),
            Matcher::Loopback(f) => f.matches(ctx, req),
            Matcher::Method(f) => f.matches(ctx, req),
            Matcher::Path(f) => f.matches(ctx, req),
            Matcher::All(ms) => {
                let n = ms.len();
                let mut i: usize = 0;
                while i < n
                    invariant
                        i <= n,
                        n == ms@.len(),
                        spec_all_wf(ms@, 0),
                        spec_all_from(ms@, 0, ctx.spec_peer(), *req) == spec_all_from(
                            ms@,
                            i as int,
                            ctx.spec_peer(),
                            *req,
                        ),
                    decreases n - i,
                {
                    proof {
                        lemma_all_wf_at(ms@, i as int);
                        assert(*self == Matcher::All(*ms));
                        assert(decreases_to!(*self => *ms));
                        assert(decreases_to!((*ms) => (*ms)[i as int]));
                        assert(decreases_to!(*self => ms@[i as int]));
                    }
                    if !ms[i].matches(ctx, req) {
                        proof {
                            assert(!spec_all_from(ms@, i as int, ctx.spec_peer(), *req));
                        }
                        return false;
                    }
                    i = i + 1;
                }
                true
            },
            Matcher::Any(ms) => {
                let n = ms.len();
                let mut i: usize = 0;
                while i < n
                    invariant
                        i <= n,
                        n == ms@.len(),
                        spec_all_wf(ms@, 0),
                        spec_any_from(ms@, 0, ctx.spec_peer(), *req) == spec_any_from(
                            ms@,
                            i as int,
                            ctx.spec_peer(),
                            *req,
                        ),
                    decreases n - i,
                {
                    proof {
                        lemma_all_wf_at(ms@, i as int);
                        assert(decreases_to!((*ms) => (*ms)[i as int]));
                        assert(decreases_to!(*self => ms@[i as int]));
                    }
                    if ms[i].matches(ctx, req) {
                        proof {
                            assert(spec_any_from(ms@, i as int, ctx.spec_peer(), *req));
                        }
                        return true;
                    }
                    i = i + 1;
                }
                false
            },
            Matcher::Not(m) => !(&**m).matches(ctx, req),
        }
    }
}

/// All matchers from position `i` on match.
pub open spec fn spec_all_from(
    ms: Seq<Matcher>,
    i: int,
    peer: Option<SocketAddr>,
    req: Request,
) -> bool
    decreases ms, ms.len() - i, 1int,
{
    if i < 0 || i >= ms.len() {
        true
    } else {
        ms[i].spec_matches(peer, req) && spec_all_from(ms, i + 1, peer, req)
    }
}

/// Some matcher from position `i` on matches.
pub open spec fn spec_any_from(
    ms: Seq<Matcher>,
    i: int,
    peer: Option<SocketAddr>,
    req: Request,
) -> bool
    decreases ms, ms.len() - i, 1int,
{
    if i < 0 || i >= ms.len() {
        false
    } else {
        ms[i].spec_matches(peer, req) || spec_any_from(ms, i + 1, peer, req)
    }
}

/// All matchers from position `i` on are well formed.
pub open spec fn spec_all_wf(ms: Seq<Matcher>, i: int) -> bool
    decreases ms, ms.len() - i, 1int,
{
    if i < 0 || i >= ms.len() {
        true
    } else {
        ms[i].wf() && spec_all_wf(ms, i + 1)
    }
}


/// The scratch after the children of a conjunction commit in order from
/// position `i` on.
pub open spec fn spec_commit_all(
    ms: Seq<Matcher>,
    i: int,
    ext: ExtensionsView,
    peer: Option<SocketAddr>,
    req: Request,
) -> ExtensionsView
    decreases ms, ms.len() - i, 1int,
{
    if i < 0 || i >= ms.len() {
        ext
    } else {
        spec_commit_all(ms, i + 1, ms[i].spec_commit(ext, peer, req), peer, req)
    }
}

/// The scratch after the first matching child from position `i` on commits.
pub open spec fn spec_commit_any(
    ms: Seq<Matcher>,
    i: int,
    ext: ExtensionsView,
    peer: Option<SocketAddr>,
    req: Request,
) -> ExtensionsView
    decreases ms, ms.len() - i, 1int,
{
    if i < 0 || i >= ms.len() {
        ext
    } else if ms[i].spec_matches(peer, req) {
        ms[i].spec_commit(ext, peer, req)
    } else {
        spec_commit_any(ms, i + 1, ext, peer, req)
    }
}

/// In a run where all matchers match, each one matches.
pub proof fn lemma_all_from_at(
    ms: Seq<Matcher>,
    i: int,
    peer: Option<SocketAddr>,
    req: Request,
)
    requires
        spec_all_from(ms, 0, peer, req),
        0 <= i < ms.len(),
    ensures
        ms[i].spec_matches(peer, req),
    decreases i,
{
    lemma_all_from_tail(ms, 0, i, peer, req);
}

/// A matching run keeps matching from any later start.
pub proof fn lemma_all_from_tail(
    ms: Seq<Matcher>,
    i: int,
    j: int,
    peer: Option<SocketAddr>,
    req: Request,
)
    requires
        0 <= i <= j,
        spec_all_from(ms, i, peer, req),
    ensures
        spec_all_from(ms, j, peer, req),
        j < ms.len() ==> ms[j].spec_matches(peer, req),
    decreases j - i,
{
    if i < j {
        lemma_all_from_tail(ms, i + 1, j, peer, req);
    }
}

/// An element of a well-formed run is well formed.
pub proof fn lemma_all_wf_at(ms: Seq<Matcher>, i: int)
    requires
        spec_all_wf(ms, 0),
        0 <= i < ms.len(),
    ensures
        ms[i].wf(),
    decreases i,
{
    if i > 0 {
        lemma_all_wf_tail(ms, 0, i);
    }
}

/// Well-formedness of a run extends to any later start.
pub proof fn lemma_all_wf_tail(ms: Seq<Matcher>, i: int, j: int)
    requires
        0 <= i <= j,
        spec_all_wf(ms, i),
    ensures
        spec_all_wf(ms, j),
        j < ms.len() ==> ms[j].wf(),
    decreases j - i,
{
    if i < j {
        lemma_all_wf_tail(ms, i + 1, j);
    }
}

/// Negate involution: negating a matcher twice decides exactly what the
/// matcher itself decides, on every subject.
pub proof fn lemma_negate_involution(m: Matcher, peer: Option<SocketAddr>, req: Request)
    ensures
        m.spec_negate().spec_negate().spec_matches(peer, req) == m.spec_matches(peer, req),
{
    let n1 = m.spec_negate();
    let n2 = n1.spec_negate();
    assert(n1.spec_matches(peer, req) == !m.spec_matches(peer, req));
    assert(n2.spec_matches(peer, req) == !n1.spec_matches(peer, req));
}

/// Peer-address fallback: with no peer information available, each
/// peer-address filter matches exactly when its `optional` flag is set.
pub proof fn lemma_peer_fallback(
    f: IpNetFilter,
    g: LoopbackFilter,
    h: PortFilter,
    k: SocketAddressFilter,
)
    ensures
        f.spec_matches(None) == f.spec_optional(),
        g.spec_matches(None) == g.spec_optional(),
        h.spec_matches(None) == h.spec_optional(),
        k.spec_matches(None) == k.spec_optional(),
{
}

} // verus!
