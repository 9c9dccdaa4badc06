//! Filter on whether a configured IP network contains the ip of the peer
//! endpoint.

use crate::context::{Context, Request, Socket};
use crate::net::{
    spec_host_net, spec_v4_from_octets, spec_v6_groups_val, IpAddr, IpNet, SocketAddr,
};
use vstd::prelude::*;
use vstd::string::StringSliceAdditionalSpecFns;

verus! {

/// Marker bound for the types a network filter can be built from.
pub trait Sealed {}

/// Conversion of a configured value into the [`IpNet`] a filter matches on.
///
/// `spec_wf` admits exactly the values the conversion is defined on (a plain
/// address or network always; a text form only when it parses), and
/// `spec_net` names the network such a value denotes.
pub trait IntoIpNet: Sealed {
    spec fn spec_wf(&self) -> bool;

    spec fn spec_net(&self) -> IpNet;

    fn into_ip_net(self) -> (r: IpNet)
        requires
            self.spec_wf(),
        ensures
            r == self.spec_net(),
            r.wf(),
    ;
}

impl Sealed for IpNet {

}

impl IntoIpNet for IpNet {
    open spec fn spec_wf(&self) -> bool {
        self.wf()
    }

    open spec fn spec_net(&self) -> IpNet {
        *self
    }

    fn into_ip_net(self) -> (r: IpNet) {
        self
    }
}

impl Sealed for crate::net::Ipv4Net {

}

impl IntoIpNet for crate::net::Ipv4Net {
    open spec fn spec_wf(&self) -> bool {
        self.wf()
    }

    open spec fn spec_net(&self) -> IpNet {
        IpNet::V4(*self)
    }

    fn into_ip_net(self) -> (r: IpNet) {
        IpNet::V4(self)
    }
}

impl Sealed for crate::net::Ipv6Net {

}

impl IntoIpNet for crate::net::Ipv6Net {
    open spec fn spec_wf(&self) -> bool {
        self.wf()
    }

    open spec fn spec_net(&self) -> IpNet {
        IpNet::V6(*self)
    }

    fn into_ip_net(self) -> (r: IpNet) {
        IpNet::V6(self)
    }
}

impl Sealed for IpAddr {

}

impl IntoIpNet for IpAddr {
    open spec fn spec_wf(&self) -> bool {
        true
    }

    /// A plain address denotes the network of that one address.
    open spec fn spec_net(&self) -> IpNet {
        spec_host_net(*self)
    }

    fn into_ip_net(self) -> (r: IpNet) {
        host_net(self)
    }
}

impl Sealed for [u8; 4] {

}

impl IntoIpNet for [u8; 4] {
    open spec fn spec_wf(&self) -> bool {
        true
    }

    open spec fn spec_net(&self) -> IpNet {
        spec_host_net(IpAddr::V4(spec_v4_from_octets(self@)))
    }

    fn into_ip_net(self) -> (r: IpNet) {
        host_net(IpAddr::v4_from_octets(self))
    }
}

impl Sealed for [u16; 8] {

}

impl IntoIpNet for [u16; 8] {
    open spec fn spec_wf(&self) -> bool {
        true
    }

    open spec fn spec_net(&self) -> IpNet {
        spec_host_net(IpAddr::V6(spec_v6_groups_val(self@) as u128))
    }

    fn into_ip_net(self) -> (r: IpNet) {
        host_net(IpAddr::v6_from_groups(self))
    }
}

impl Sealed for [u8; 16] {

}

impl IntoIpNet for [u8; 16] {
    open spec fn spec_wf(&self) -> bool {
        true
    }

    open spec fn spec_net(&self) -> IpNet {
        spec_host_net(
            IpAddr::V6(spec_v6_groups_val(spec_bytes_to_groups(self@)) as u128),
        )
    }

    fn into_ip_net(self) -> (r: IpNet) {
        let g: [u16; 8] = [
            ((self[0] as u16) << 8u16) | (self[1] as u16),
            ((self[2] as u16) << 8u16) | (self[3] as u16),
            ((self[4] as u16) << 8u16) | (self[5] as u16),
            ((self[6] as u16) << 8u16) | (self[7] as u16),
            ((self[8] as u16) << 8u16) | (self[9] as u16),
            ((self[10] as u16) << 8u16) | (self[11] as u16),
            ((self[12] as u16) << 8u16) | (self[13] as u16),
            ((self[14] as u16) << 8u16) | (self[15] as u16),
        ];
        proof {
            assert(g@ =~= spec_bytes_to_groups(self@));
        }
        host_net(IpAddr::v6_from_groups(g))
    }
}

/// The eight 16-bit groups of sixteen address bytes, big endian.
pub open spec fn spec_bytes_to_groups(s: Seq<u8>) -> Seq<u16>
    recommends
        s.len() == 16,
{
    Seq::new(8, |i: int| ((s[2 * i] as u16) << 8u16) | (s[2 * i + 1] as u16))
}

impl Sealed for &str {

}

impl IntoIpNet for &str {
    /// A text form is admitted exactly when it parses as an address or a
    /// CIDR network.
    open spec fn spec_wf(&self) -> bool {
        crate::parse::spec_parse_ip_net(self.spec_bytes()) is Some
    }

    open spec fn spec_net(&self) -> IpNet {
        crate::parse::spec_parse_ip_net(self.spec_bytes()).unwrap()
    }

    fn into_ip_net(self) -> (r: IpNet) {
        match crate::parse::parse_ip_net(self.as_bytes()) {
            Ok(net) => net,
            Err(_) => vstd::pervasive::unreached(),
        }
    }
}

impl Sealed for String {

}

impl IntoIpNet for String {
    /// A text form is admitted exactly when it parses as an address or a
    /// CIDR network.
    open spec fn spec_wf(&self) -> bool {
        crate::parse::spec_parse_ip_net(vstd::utf8::encode_utf8(self@)) is Some
    }

    open spec fn spec_net(&self) -> IpNet {
        crate::parse::spec_parse_ip_net(vstd::utf8::encode_utf8(self@)).unwrap()
    }

    fn into_ip_net(self) -> (r: IpNet) {
        match crate::parse::parse_ip_net(self.as_str().as_bytes()) {
            Ok(net) => net,
            Err(_) => vstd::pervasive::unreached(),
        }
    }
}

/// Build the single-address network for an address.
pub fn host_net(ip: IpAddr) -> (r: IpNet)
    ensures
        r == spec_host_net(ip),
        r.wf(),
{
    IpNet::host(ip)
}

/// Filter matching a peer whose ip the configured network contains;
/// containment is family-strict.
///
/// The `optional` flag decides the result when no peer address is available:
/// a strict filter does not match, an optional one does.
#[derive(Clone, Copy, PartialEq, Eq, Structural, Debug)]
pub struct IpNetFilter {
    net: IpNet,
    optional: bool,
}

impl IpNetFilter {
    pub closed spec fn spec_ip_net(&self) -> IpNet {
        self.net
    }

    pub closed spec fn spec_optional(&self) -> bool {
        self.optional
    }

    pub open spec fn wf(&self) -> bool {
        self.spec_ip_net().wf()
    }

    /// What the filter decides for a resolved peer: network containment when
    /// the peer is known, the `optional` flag when it is not.
    pub open spec fn spec_matches(&self, peer: Option<SocketAddr>) -> bool {
        match peer {
            Some(a) => self.spec_ip_net().spec_contains(a.ip),
            None => self.spec_optional(),
        }
    }

    /// Strict network filter: an unknown peer address does not match.
    pub fn new<N: IntoIpNet>(net: N) -> (r: Self)
        requires
            net.spec_wf(),
        ensures
            r.wf(),
            r.spec_ip_net() == net.spec_net(),
            !r.spec_optional(),
    {
        IpNetFilter { net: net.into_ip_net(), optional: false }
    }

    /// Optional network filter: an unknown peer address matches.
    pub fn optional<N: IntoIpNet>(net: N) -> (r: Self)
        requires
            net.spec_wf(),
        ensures
            r.wf(),
            r.spec_ip_net() == net.spec_net(),
            r.spec_optional(),
    {
        IpNetFilter { net: net.into_ip_net(), optional: true }
    }

    /// Match a parsed-request subject; the peer comes from the context's
    /// `SocketInfo` extension.
    pub fn matches<State>(&self, ctx: &Context<State>, _req: &Request) -> (r: bool)
        requires
            self.wf(),
        ensures
            r == self.spec_matches(ctx.spec_peer()),
    {
        match ctx.socket_info() {
            Some(info) => self.net.contains(&info.peer_addr().ip),
            None => self.optional,
        }
    }

    /// Match a stream subject; the peer comes from the stream itself.
    pub fn matches_socket<State>(&self, _ctx: &Context<State>, stream: &Socket) -> (r: bool)
        requires
            self.wf(),
        ensures
            r == self.spec_matches(stream.spec_peer()),
    {
        match stream.peer_addr() {
            Some(a) => self.net.contains(&a.ip),
            None => self.optional,
        }
    }
}

} // verus!
