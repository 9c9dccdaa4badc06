//! Plain-value models of the network endpoint data the matchers read:
//! IP addresses, socket addresses, and CIDR networks with prefix containment.

use vstd::arithmetic::power2::{lemma2_to64, lemma_pow2_adds, pow2};
use vstd::prelude::*;

verus! {

/// An IP address: IPv4 as its 32-bit numeric value, IPv6 as its 128-bit value.
#[derive(Clone, Copy, PartialEq, Eq, Structural, Debug)]
pub enum IpAddr {
    V4(u32),
    V6(u128),
}

/// Numeric IPv4 value of four dotted-quad octets, `a.b.c.d`.
pub open spec fn spec_v4_from_octets(s: Seq<u8>) -> u32
    recommends
        s.len() == 4,
{
    ((s[0] as u32) << 24u32) | ((s[1] as u32) << 16u32) | ((s[2] as u32) << 8u32) | (s[3] as u32)
}

/// Numeric IPv6 value of a sequence of 16-bit groups, most significant first.
pub open spec fn spec_v6_groups_val(s: Seq<u16>) -> nat
    decreases s.len(),
{
    if s.len() == 0 {
        0
    } else {
        spec_v6_groups_val(s.drop_last()) * 0x10000 + (s.last() as nat)
    }
}

/// A sequence of 16-bit groups encodes a value below `2^(16 * len)`.
pub proof fn lemma_v6_groups_val_bound(s: Seq<u16>)
    ensures
        spec_v6_groups_val(s) < pow2(16 * s.len()),
    decreases s.len(),
{
    lemma2_to64();
    if s.len() == 0 {
    } else {
        let n = (s.len() - 1) as nat;
        lemma_v6_groups_val_bound(s.drop_last());
        let p = spec_v6_groups_val(s.drop_last());
        lemma_pow2_adds(16 * n, 16);
        assert(16 * s.len() == 16 * n + 16);
        assert(p * 0x10000 + (s.last() as nat) < pow2(16 * n) * 0x10000) by (nonlinear_arith)
            requires
                p < pow2(16 * n),
                (s.last() as nat) < 0x10000,
        ;
    }
}

impl IpAddr {
    /// Whether the address lies in its family's loopback range:
    /// `127.0.0.0/8` for IPv4, exactly `::1` for IPv6.
    pub open spec fn spec_is_loopback(self) -> bool {
        match self {
            IpAddr::V4(a) => a >> 24u32 == 127u32,
            IpAddr::V6(a) => a == 1u128,
        }
    }

    /// Build an IPv4 address from its four dotted-quad octets.
    pub fn v4_from_octets(o: [u8; 4]) -> (r: Self)
        ensures
            r == IpAddr::V4(spec_v4_from_octets(o@)),
    {
        IpAddr::V4(
            ((o[0] as u32) << 24u32) | ((o[1] as u32) << 16u32) | ((o[2] as u32) << 8u32) | (
            o[3] as u32),
        )
    }

    /// Build an IPv6 address from its eight 16-bit groups.
    pub fn v6_from_groups(g: [u16; 8]) -> (r: Self)
        ensures
            r == IpAddr::V6(spec_v6_groups_val(g@) as u128),
    {
        let v = groups_to_value(&[g[0], g[1], g[2], g[3], g[4], g[5], g[6], g[7]]);
        proof {
            assert([g[0], g[1], g[2], g[3], g[4], g[5], g[6], g[7]]@ =~= g@);
        }
        IpAddr::V6(v)
    }
}

/// Combine at most eight 16-bit groups into the numeric address value.
pub fn groups_to_value(g: &[u16]) -> (r: u128)
    requires
        g@.len() <= 8,
    ensures
        r == spec_v6_groups_val(g@),
{
    let n = g.len();
    let mut v: u128 = 0;
    let mut i: usize = 0;
    while i < n
        invariant
            i <= n,
            n == g@.len() <= 8,
            v == spec_v6_groups_val(g@.subrange(0, i as int)),
        decreases n - i,
    {
        proof {
            assert(g@.subrange(0, i + 1).drop_last() =~= g@.subrange(0, i as int));
            assert(g@.subrange(0, i + 1).last() == g@[i as int]);
            lemma_v6_groups_val_bound(g@.subrange(0, i as int));
            lemma_pow2_adds(16 * i as nat, 16);
            assert(pow2(16 * (i as nat)) <= pow2(112)) by {
                if (16 * (i as nat)) < 112 {
                    vstd::arithmetic::power2::lemma_pow2_strictly_increases(16 * (i as nat), 112);
                }
            }
            lemma_pow2_adds(64, 48);
            lemma2_to64();
            vstd::arithmetic::power2::lemma2_to64_rest();
            assert(pow2(112) == 0x10000000000000000 * 0x1000000000000);
            assert((v as nat) * 0x10000 + (g@[i as int] as nat) < pow2(112) * 0x10000)
                by (nonlinear_arith)
                requires
                    (v as nat) < pow2(112),
                    (g@[i as int] as nat) < 0x10000,
            ;
        }
        v = v * 0x10000 + (g[i] as u128);
        i = i + 1;
    }
    proof {
        assert(g@.subrange(0, n as int) =~= g@);
    }
    v
}

/// A socket endpoint: an IP address and a port.
#[derive(Clone, Copy, PartialEq, Eq, Structural, Debug)]
pub struct SocketAddr {
    pub ip: IpAddr,
    pub port: u16,
}

impl SocketAddr {
    pub fn new(ip: IpAddr, port: u16) -> (r: Self)
        ensures
            r.ip == ip,
            r.port == port,
    {
        SocketAddr { ip, port }
    }

    /// Endpoint from four IPv4 octets and a port.
    pub fn v4(o: [u8; 4], port: u16) -> (r: Self)
        ensures
            r.ip == IpAddr::V4(spec_v4_from_octets(o@)),
            r.port == port,
    {
        SocketAddr { ip: IpAddr::v4_from_octets(o), port }
    }

    /// Endpoint from eight IPv6 groups and a port.
    pub fn v6(g: [u16; 8], port: u16) -> (r: Self)
        ensures
            r.ip == IpAddr::V6(spec_v6_groups_val(g@) as u128),
            r.port == port,
    {
        SocketAddr { ip: IpAddr::v6_from_groups(g), port }
    }
}

/// Error for a network prefix length beyond the family's address width.
#[derive(Clone, Copy, PartialEq, Eq, Structural, Debug)]
pub struct PrefixLenError;

/// An IPv4 network: a prefix address and a prefix length of at most 32 bits.
#[derive(Clone, Copy, PartialEq, Eq, Structural, Debug)]
pub struct Ipv4Net {
    pub addr: u32,
    pub prefix_len: u8,
}

impl Ipv4Net {
    pub open spec fn spec_addr(self) -> u32 {
        self.addr
    }

    pub open spec fn spec_prefix_len(self) -> u8 {
        self.prefix_len
    }

    pub open spec fn wf(self) -> bool {
        self.spec_prefix_len() <= 32
    }

    /// The network contains an address iff their top `prefix_len` bits agree.
    pub open spec fn spec_contains(self, ip: u32) -> bool {
        if self.spec_prefix_len() == 0 {
            true
        } else {
            ip >> ((32 - self.spec_prefix_len()) as u32) == self.spec_addr() >> ((32
                - self.spec_prefix_len()) as u32)
        }
    }

    pub fn new(addr: u32, prefix_len: u8) -> (r: Result<Self, PrefixLenError>)
        ensures
            r is Ok <==> prefix_len <= 32,
            r is Ok ==> r.unwrap().wf() && r.unwrap().spec_addr() == addr
                && r.unwrap().spec_prefix_len() == prefix_len,
    {
        if prefix_len <= 32 {
            Ok(Ipv4Net { addr, prefix_len })
        } else {
            Err(PrefixLenError)
        }
    }

    pub fn contains(&self, ip: u32) -> (r: bool)
        requires
            self.wf(),
        ensures
            r == self.spec_contains(ip),
    {
        if self.prefix_len == 0 {
            true
        } else {
            ip >> (32 - self.prefix_len as u32) == self.addr >> (32 - self.prefix_len as u32)
        }
    }
}

/// An IPv6 network: a prefix address and a prefix length of at most 128 bits.
#[derive(Clone, Copy, PartialEq, Eq, Structural, Debug)]
pub struct Ipv6Net {
    pub addr: u128,
    pub prefix_len: u8,
}

impl Ipv6Net {
    pub open spec fn spec_addr(self) -> u128 {
        self.addr
    }

    pub open spec fn spec_prefix_len(self) -> u8 {
        self.prefix_len
    }

    pub open spec fn wf(self) -> bool {
        self.spec_prefix_len() <= 128
    }

    /// The network contains an address iff their top `prefix_len` bits agree.
    pub open spec fn spec_contains(self, ip: u128) -> bool {
        if self.spec_prefix_len() == 0 {
            true
        } else {
            ip >> ((128 - self.spec_prefix_len()) as u128) == self.spec_addr() >> ((128
                - self.spec_prefix_len()) as u128)
        }
    }

    pub fn new(addr: u128, prefix_len: u8) -> (r: Result<Self, PrefixLenError>)
        ensures
            r is Ok <==> prefix_len <= 128,
            r is Ok ==> r.unwrap().wf() && r.unwrap().spec_addr() == addr
                && r.unwrap().spec_prefix_len() == prefix_len,
    {
        if prefix_len <= 128 {
            Ok(Ipv6Net { addr, prefix_len })
        } else {
            Err(PrefixLenError)
        }
    }

    pub fn contains(&self, ip: u128) -> (r: bool)
        requires
            self.wf(),
        ensures
            r == self.spec_contains(ip),
    {
        if self.prefix_len == 0 {
            true
        } else {
            ip >> (128 - self.prefix_len as u128) == self.addr >> (128 - self.prefix_len as u128)
        }
    }
}

/// An IP network of either family.
#[derive(Clone, Copy, PartialEq, Eq, Structural, Debug)]
pub enum IpNet {
    V4(Ipv4Net),
    V6(Ipv6Net),
}

impl IpNet {
    pub open spec fn wf(self) -> bool {
        match self {
            IpNet::V4(n) => n.wf(),
            IpNet::V6(n) => n.wf(),
        }
    }

    /// Containment is prefix match within the family and always false across
    /// families.
    pub open spec fn spec_contains(self, ip: IpAddr) -> bool {
        match (self, ip) {
            (IpNet::V4(n), IpAddr::V4(a)) => n.spec_contains(a),
            (IpNet::V6(n), IpAddr::V6(a)) => n.spec_contains(a),
            _ => false,
        }
    }

    pub fn contains(&self, ip: &IpAddr) -> (r: bool)
        requires
            self.wf(),
        ensures
            r == self.spec_contains(*ip),
    {
        match (self, ip) {
            (IpNet::V4(n), IpAddr::V4(a)) => n.contains(*a),
            (IpNet::V6(n), IpAddr::V6(a)) => n.contains(*a),
            _ => false,
        }
    }

    /// The prefix address of the network, tagged with its family.
    pub fn addr(&self) -> (r: IpAddr)
        ensures
            r == self.spec_ip_addr(),
    {
        match self {
            IpNet::V4(n) => IpAddr::V4(n.addr),
            IpNet::V6(n) => IpAddr::V6(n.addr),
        }
    }

    /// The prefix address of the network, tagged with its family.
    pub open spec fn spec_ip_addr(self) -> IpAddr {
        match self {
            IpNet::V4(n) => IpAddr::V4(n.spec_addr()),
            IpNet::V6(n) => IpAddr::V6(n.spec_addr()),
        }
    }

    /// The network holding exactly one address: the full-width prefix.
    pub fn host(ip: IpAddr) -> (r: Self)
        ensures
            r == spec_host_net(ip),
            r.wf(),
            forall|other: IpAddr| r.spec_contains(other) <==> other == ip,
    {
        proof {
            lemma_host_net(ip);
        }
        match ip {
            IpAddr::V4(a) => IpNet::V4(Ipv4Net { addr: a, prefix_len: 32 }),
            IpAddr::V6(a) => IpNet::V6(Ipv6Net { addr: a, prefix_len: 128 }),
        }
    }
}

/// The full-width IPv4 network holding exactly the given address.
pub open spec fn spec_v4_host(a: u32) -> Ipv4Net {
    Ipv4Net { addr: a, prefix_len: 32 }
}

/// The full-width IPv6 network holding exactly the given address.
pub open spec fn spec_v6_host(a: u128) -> Ipv6Net {
    Ipv6Net { addr: a, prefix_len: 128 }
}

/// The network holding exactly the given address.
pub open spec fn spec_host_net(ip: IpAddr) -> IpNet {
    match ip {
        IpAddr::V4(a) => IpNet::V4(spec_v4_host(a)),
        IpAddr::V6(a) => IpNet::V6(spec_v6_host(a)),
    }
}

/// The single-address network is well formed and contains exactly its
/// address.
pub proof fn lemma_host_net(ip: IpAddr)
    ensures
        spec_host_net(ip).wf(),
        forall|other: IpAddr| spec_host_net(ip).spec_contains(other) <==> other == ip,
{
    assert forall|a: u32, b: u32| (a >> 0u32 == b >> 0u32) <==> a == b by {
        assert((a >> 0u32 == b >> 0u32) <==> a == b) by (bit_vector);
    }
    assert forall|a: u128, b: u128| (a >> 0u128 == b >> 0u128) <==> a == b by {
        assert((a >> 0u128 == b >> 0u128) <==> a == b) by (bit_vector);
    }
}

/// Family strictness: an IPv4 network never contains an IPv6 address and an
/// IPv6 network never contains an IPv4 address.
pub proof fn lemma_family_strict(net: IpNet, ip: IpAddr)
    ensures
        net is V4 && ip is V6 ==> !net.spec_contains(ip),
        net is V6 && ip is V4 ==> !net.spec_contains(ip),
{
}

} // verus!
