//! Filter on the full socket address of the peer endpoint.

use crate::context::{Context, Request, Socket};
use crate::net::SocketAddr;
use vstd::prelude::*;

verus! {

/// Filter matching a peer whose endpoint equals the configured endpoint.
///
/// The `optional` flag decides the result when no peer address is available:
/// a strict filter does not match, an optional one does.
#[derive(Clone, Copy, PartialEq, Eq, Structural, Debug)]
pub struct SocketAddressFilter {
    addr: SocketAddr,
    optional: bool,
}

impl SocketAddressFilter {
    pub closed spec fn spec_addr(&self) -> SocketAddr {
        self.addr
    }

    pub closed spec fn spec_optional(&self) -> bool {
        self.optional
    }

    /// What the filter decides for a resolved peer: endpoint equality when
    /// the peer is known, the `optional` flag when it is not.
    pub open spec fn spec_matches(&self, peer: Option<SocketAddr>) -> bool {
        match peer {
            Some(a) => a == self.spec_addr(),
            None => self.spec_optional(),
        }
    }

    /// Strict socket-address filter: an unknown peer address does not match.
    pub fn new(addr: SocketAddr) -> (r: Self)
        ensures
            r.spec_addr() == addr,
            !r.spec_optional(),
    {
        SocketAddressFilter { addr, optional: false }
    }

    /// Optional socket-address filter: an unknown peer address matches.
    pub fn optional(addr: SocketAddr) -> (r: Self)
        ensures
            r.spec_addr() == addr,
            r.spec_optional(),
    {
        SocketAddressFilter { addr, optional: true }
    }

    /// Match a parsed-request subject; the peer comes from the context's
    /// `SocketInfo` extension.
    pub fn matches<State>(&self, ctx: &Context<State>, _req: &Request) -> (r: bool)
        ensures
            r == self.spec_matches(ctx.spec_peer()),
    {
        match ctx.socket_info() {
            Some(info) => *info.peer_addr() == self.addr,
            None => self.optional,
        }
    }

    /// Match a stream subject; the peer comes from the stream itself.
    pub fn matches_socket<State>(&self, _ctx: &Context<State>, stream: &Socket) -> (r: bool)
        ensures
            r == self.spec_matches(stream.spec_peer()),
    {
        match stream.peer_addr() {
            Some(a) => a == self.addr,
            None => self.optional,
        }
    }
}

} // verus!
