//! Filter on the ip part of the peer endpoint, matching only if the ip is a
//! loopback address.

use crate::context::{Context, Request, Socket};
use crate::net::SocketAddr;
use vstd::prelude::*;

verus! {

/// Filter matching only a peer whose ip lies in its family's loopback range.
///
/// The `optional` flag decides the result when no peer address is available:
/// a strict filter does not match, an optional one does.
#[derive(Clone, Copy, PartialEq, Eq, Structural, Debug)]
pub struct LoopbackFilter {
    optional: bool,
}

impl LoopbackFilter {
    pub closed spec fn spec_optional(&self) -> bool {
        self.optional
    }

    /// What the filter decides for a resolved peer: loopback membership when
    /// the peer is known, the `optional` flag when it is not.
    pub open spec fn spec_matches(&self, peer: Option<SocketAddr>) -> bool {
        match peer {
            Some(a) => a.ip.spec_is_loopback(),
            None => self.spec_optional(),
        }
    }

    /// Strict loopback filter: an unknown peer address does not match.
    pub fn new() -> (r: Self)
        ensures
            !r.spec_optional(),
    {
        LoopbackFilter { optional: false }
    }

    /// Optional loopback filter: an unknown peer address matches.
    pub fn optional() -> (r: Self)
        ensures
            r.spec_optional(),
    {
        LoopbackFilter { optional: true }
    }

    /// Match a parsed-request subject; the peer comes from the context's
    /// `SocketInfo` extension.
    pub fn matches<State>(&self, ctx: &Context<State>, _req: &Request) -> (r: bool)
        ensures
            r == self.spec_matches(ctx.spec_peer()),
    {
        match ctx.socket_info() {
            Some(info) => is_loopback_ip(info.peer_addr()),
            None => self.optional,
        }
    }

    /// Match a stream subject; the peer comes from the stream itself.
    pub fn matches_socket<State>(&self, _ctx: &Context<State>, stream: &Socket) -> (r: bool)
        ensures
            r == self.spec_matches(stream.spec_peer()),
    {
        match stream.peer_addr() {
            Some(a) => is_loopback_ip(&a),
            None => self.optional,
        }
    }
}

impl Default for LoopbackFilter {
    fn default() -> (r: Self)
        ensures
            !r.spec_optional(),
    {
        LoopbackFilter { optional: false }
    }
}

/// Whether an endpoint's ip lies in its family's loopback range.
pub fn is_loopback_ip(addr: &SocketAddr) -> (r: bool)
    ensures
        r == addr.ip.spec_is_loopback(),
{
    match addr.ip {
        crate::net::IpAddr::V4(a) => a >> 24u32 == 127,
        crate::net::IpAddr::V6(a) => a == 1,
    }
}

} // verus!
