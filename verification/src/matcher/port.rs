//! Filter on the port part of the peer endpoint.

use crate::context::{Context, Request, Socket};
use crate::net::SocketAddr;
use vstd::prelude::*;

verus! {

/// Filter matching a peer whose port equals the configured port; the ip is
/// ignored.
///
/// The `optional` flag decides the result when no peer address is available:
/// a strict filter does not match, an optional one does.
#[derive(Clone, Copy, PartialEq, Eq, Structural, Debug)]
pub struct PortFilter {
    port: u16,
    optional: bool,
}

impl PortFilter {
    pub closed spec fn spec_port(&self) -> u16 {
        self.port
    }

    pub closed spec fn spec_optional(&self) -> bool {
        self.optional
    }

    /// What the filter decides for a resolved peer: port equality when the
    /// peer is known, the `optional` flag when it is not.
    pub open spec fn spec_matches(&self, peer: Option<SocketAddr>) -> bool {
        match peer {
            Some(a) => a.port == self.spec_port(),
            None => self.spec_optional(),
        }
    }

    /// Strict port filter: an unknown peer address does not match.
    pub fn new(port: u16) -> (r: Self)
        ensures
            r.spec_port() == port,
            !r.spec_optional(),
    {
        PortFilter { port, optional: false }
    }

    /// Optional port filter: an unknown peer address matches.
    pub fn optional(port: u16) -> (r: Self)
        ensures
            r.spec_port() == port,
            r.spec_optional(),
    {
        PortFilter { port, optional: true }
    }

    /// Match a parsed-request subject; the peer comes from the context's
    /// `SocketInfo` extension.
    pub fn matches<State>(&self, ctx: &Context<State>, _req: &Request) -> (r: bool)
        ensures
            r == self.spec_matches(ctx.spec_peer()),
    {
        match ctx.socket_info() {
            Some(info) => info.peer_addr().port == self.port,
            None => self.optional,
        }
    }

    /// Match a stream subject; the peer comes from the stream itself.
    pub fn matches_socket<State>(&self, _ctx: &Context<State>, stream: &Socket) -> (r: bool)
        ensures
            r == self.spec_matches(stream.spec_peer()),
    {
        match stream.peer_addr() {
            Some(a) => a.port == self.port,
            None => self.optional,
        }
    }
}

} // verus!
