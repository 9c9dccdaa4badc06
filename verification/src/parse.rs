//! Text forms of addresses and networks: dotted-quad IPv4, grouped IPv6 with
//! one optional `::` run, and CIDR `address/prefix` networks. Malformed text
//! is rejected when a configuration value is built, never at match time.

use crate::net::{
    spec_host_net, spec_v4_from_octets, spec_v6_groups_val, IpAddr, IpNet, Ipv4Net, Ipv6Net,
};
use vstd::prelude::*;

verus! {

/// Byte values of the separator and digit characters of the text forms.
pub const DOT: u8 = 46;

pub const COLON: u8 = 58;

pub const SLASH: u8 = 47;

/// Error for text that does not denote an IP address or network.
#[derive(Clone, Copy, PartialEq, Eq, Structural, Debug)]
pub struct NetParseError;

/// Value of a decimal digit byte.
pub open spec fn spec_dec_digit(c: u8) -> Option<u8> {
    if 48 <= c && c <= 57 {
        Some((c - 48) as u8)
    } else {
        None
    }
}

/// Value of a hexadecimal digit byte, either case.
pub open spec fn spec_hex_digit(c: u8) -> Option<u8> {
    if 48 <= c && c <= 57 {
        Some((c - 48) as u8)
    } else if 97 <= c && c <= 102 {
        Some((c - 97 + 10) as u8)
    } else if 65 <= c && c <= 70 {
        Some((c - 65 + 10) as u8)
    } else {
        None
    }
}

/// Parse a decimal number of one to three digits at position `i`: greedy,
/// value at most 255, no leading zero. Yields the value and the position
/// after it.
pub open spec fn spec_octet(s: Seq<u8>, i: int) -> Option<(u8, int)> {
    if 0 <= i && i < s.len() {
        match spec_dec_digit(s[i]) {
            None => None,
            Some(d0) => {
                if d0 == 0 {
                    Some((0u8, i + 1))
                } else if i + 1 < s.len() && spec_dec_digit(s[i + 1]) is Some {
                    let d1 = spec_dec_digit(s[i + 1]).unwrap();
                    if i + 2 < s.len() && spec_dec_digit(s[i + 2]) is Some {
                        let d2 = spec_dec_digit(s[i + 2]).unwrap();
                        if d0 * 100 + d1 * 10 + d2 <= 255 {
                            Some(((d0 * 100 + d1 * 10 + d2) as u8, i + 3))
                        } else {
                            None
                        }
                    } else {
                        Some(((d0 * 10 + d1) as u8, i + 2))
                    }
                } else {
                    Some((d0, i + 1))
                }
            },
        }
    } else {
        None
    }
}

/// Parse `a.b.c.d` at position `i`, yielding the numeric address value and
/// the position after it.
pub open spec fn spec_ipv4_at(s: Seq<u8>, i: int) -> Option<(u32, int)> {
    match spec_octet(s, i) {
        None => None,
        Some((o0, i1)) => {
            if i1 < s.len() && s[i1] == DOT {
                match spec_octet(s, i1 + 1) {
                    None => None,
                    Some((o1, i2)) => {
                        if i2 < s.len() && s[i2] == DOT {
                            match spec_octet(s, i2 + 1) {
                                None => None,
                                Some((o2, i3)) => {
                                    if i3 < s.len() && s[i3] == DOT {
                                        match spec_octet(s, i3 + 1) {
                                            None => None,
                                            Some((o3, i4)) => Some(
                                                (spec_v4_from_octets(seq![o0, o1, o2, o3]), i4),
                                            ),
                                        }
                                    } else {
                                        None
                                    }
                                },
                            }
                        } else {
                            None
                        }
                    },
                }
            } else {
                None
            }
        },
    }
}

/// An entire IPv4 address text.
pub open spec fn spec_ipv4_addr(s: Seq<u8>) -> Option<u32> {
    match spec_ipv4_at(s, 0) {
        Some((v, j)) => {
            if j == s.len() {
                Some(v)
            } else {
                None
            }
        },
        None => None,
    }
}

/// Parse one IPv6 group of one to four hexadecimal digits at position `i`,
/// greedy, yielding the group value and the position after it.
pub open spec fn spec_group(s: Seq<u8>, i: int) -> Option<(u16, int)> {
    if 0 <= i && i < s.len() {
        match spec_hex_digit(s[i]) {
            None => None,
            Some(d0) => {
                if i + 1 < s.len() && spec_hex_digit(s[i + 1]) is Some {
                    let d1 = spec_hex_digit(s[i + 1]).unwrap();
                    if i + 2 < s.len() && spec_hex_digit(s[i + 2]) is Some {
                        let d2 = spec_hex_digit(s[i + 2]).unwrap();
                        if i + 3 < s.len() && spec_hex_digit(s[i + 3]) is Some {
                            let d3 = spec_hex_digit(s[i + 3]).unwrap();
                            Some(
                                (
                                    ((d0 as u16) * 0x1000 + (d1 as u16) * 0x100 + (d2 as u16) * 0x10
                                        + (d3 as u16)) as u16,
                                    i + 4,
                                ),
                            )
                        } else {
                            Some(
                                (((d0 as u16) * 0x100 + (d1 as u16) * 0x10 + (d2 as u16)) as u16, i
                                    + 3),
                            )
                        }
                    } else {
                        Some((((d0 as u16) * 0x10 + (d1 as u16)) as u16, i + 2))
                    }
                } else {
                    Some((d0 as u16, i + 1))
                }
            },
        }
    } else {
        None
    }
}

/// Parse a run of groups separated by single colons at position `i`:
/// `g (':' g)*`, at most `fuel` groups, stopping before a `::`. Yields the
/// groups and the position after the last one.
pub open spec fn spec_groups_from(s: Seq<u8>, i: int, fuel: nat) -> (Seq<u16>, int)
    decreases fuel,
{
    if fuel == 0 {
        (Seq::<u16>::empty(), i)
    } else {
        match spec_group(s, i) {
            None => (Seq::<u16>::empty(), i),
            Some((g, j)) => {
                if fuel > 1 && j + 1 < s.len() && s[j] == COLON && spec_group(s, j + 1) is Some {
                    let (rest, k) = spec_groups_from(s, j + 1, (fuel - 1) as nat);
                    (seq![g] + rest, k)
                } else {
                    (seq![g], j)
                }
            },
        }
    }
}

/// An entire IPv6 address text: either eight colon-separated groups, or at
/// most seven groups with one `::` run standing for the missing zeros.
pub open spec fn spec_ipv6_addr(s: Seq<u8>) -> Option<u128> {
    let (ls, i) = spec_groups_from(s, 0, 8);
    if i == s.len() {
        if ls.len() == 8 {
            Some(spec_v6_groups_val(ls) as u128)
        } else {
            None
        }
    } else if i + 1 < s.len() && s[i] == COLON && s[i + 1] == COLON {
        let (rs, j) = spec_groups_from(s, i + 2, 8);
        if j == s.len() && ls.len() + rs.len() <= 7 {
            Some(spec_v6_groups_val(ls + Seq::new((8 - ls.len() - rs.len()) as nat, |k: int| 0u16) + rs) as u128)
        } else {
            None
        }
    } else {
        None
    }
}

/// An entire IP address text; a colon anywhere selects the IPv6 form.
pub open spec fn spec_parse_ip_addr(s: Seq<u8>) -> Option<IpAddr> {
    if spec_find(s, COLON, 0) < s.len() {
        match spec_ipv6_addr(s) {
            Some(v) => Some(IpAddr::V6(v)),
            None => None,
        }
    } else {
        match spec_ipv4_addr(s) {
            Some(v) => Some(IpAddr::V4(v)),
            None => None,
        }
    }
}

/// First position at or after `i` holding byte `c`, or the length.
pub open spec fn spec_find(s: Seq<u8>, c: u8, i: int) -> int
    decreases s.len() - i,
        when 0 <= i <= s.len()

{
    if 0 <= i && i < s.len() {
        if s[i] == c {
            i
        } else {
            spec_find(s, c, i + 1)
        }
    } else {
        s.len() as int
    }
}

/// An entire decimal prefix length text: one to three digits, no leading
/// zero, any value up to 255.
pub open spec fn spec_prefix_text(s: Seq<u8>) -> Option<u8> {
    match spec_octet(s, 0) {
        Some((v, j)) => {
            if j == s.len() {
                Some(v)
            } else {
                None
            }
        },
        None => None,
    }
}

/// An entire network text: an address alone denotes its single-address
/// network; `address/prefix` denotes the prefix network, with the prefix
/// length at most the family's width.
pub open spec fn spec_parse_ip_net(s: Seq<u8>) -> Option<IpNet> {
    let sl = spec_find(s, SLASH, 0);
    if sl == s.len() {
        match spec_parse_ip_addr(s) {
            Some(ip) => Some(spec_host_net(ip)),
            None => None,
        }
    } else {
        match spec_parse_ip_addr(s.subrange(0, sl)) {
            None => None,
            Some(ip) => match spec_prefix_text(s.subrange(sl + 1, s.len() as int)) {
                None => None,
                Some(p) => match ip {
                    IpAddr::V4(a) => {
                        if p <= 32 {
                            Some(IpNet::V4(Ipv4Net { addr: a, prefix_len: p }))
                        } else {
                            None
                        }
                    },
                    IpAddr::V6(a) => {
                        if p <= 128 {
                            Some(IpNet::V6(Ipv6Net { addr: a, prefix_len: p }))
                        } else {
                            None
                        }
                    },
                },
            },
        }
    }
}

/// Decimal digit value of a byte.
pub fn dec_digit(c: u8) -> (r: Option<u8>)
    ensures
        r == spec_dec_digit(c),
{
    if 48 <= c && c <= 57 {
        Some(c - 48)
    } else {
        None
    }
}

/// Hexadecimal digit value of a byte, either case.
pub fn hex_digit(c: u8) -> (r: Option<u8>)
    ensures
        r == spec_hex_digit(c),
{
    if 48 <= c && c <= 57 {
        Some(c - 48)
    } else if 97 <= c && c <= 102 {
        Some(c - 97 + 10)
    } else if 65 <= c && c <= 70 {
        Some(c - 65 + 10)
    } else {
        None
    }
}

/// Parse a decimal number of one to three digits at position `i`.
pub fn parse_octet(s: &[u8], i: usize) -> (r: Option<(u8, usize)>)
    requires
        i <= s@.len(),
    ensures
        match r {
            Some(p) => spec_octet(s@, i as int) == Some((p.0, p.1 as int)) && i < p.1 && p.1
                <= s@.len(),
            None => spec_octet(s@, i as int) is None,
        },
{
    if i >= s.len() {
        return None;
    }
    match dec_digit(s[i]) {
        None => None,
        Some(d0) => {
            if d0 == 0 {
                Some((0u8, i + 1))
            } else {
                let d1opt = if i + 1 < s.len() {
                    dec_digit(s[i + 1])
                } else {
                    None
                };
                match d1opt {
                    None => Some((d0, i + 1)),
                    Some(d1) => {
                        let d2opt = if i + 2 < s.len() {
                            dec_digit(s[i + 2])
                        } else {
                            None
                        };
                        match d2opt {
                            None => Some((d0 * 10 + d1, i + 2)),
                            Some(d2) => {
                                let v: u16 = (d0 as u16) * 100 + (d1 as u16) * 10 + (d2 as u16);
                                if v <= 255 {
                                    Some((v as u8, i + 3))
                                } else {
                                    None
                                }
                            },
                        }
                    },
                }
            }
        },
    }
}

/// Parse `a.b.c.d` at position `i`.
pub fn parse_ipv4_at(s: &[u8], i: usize) -> (r: Option<(u32, usize)>)
    requires
        i <= s@.len(),
    ensures
        match r {
            Some(p) => spec_ipv4_at(s@, i as int) == Some((p.0, p.1 as int)) && i < p.1 && p.1
                <= s@.len(),
            None => spec_ipv4_at(s@, i as int) is None,
        },
{
    match parse_octet(s, i) {
        None => None,
        Some((o0, i1)) => {
            if i1 < s.len() && s[i1] == DOT {
                match parse_octet(s, i1 + 1) {
                    None => None,
                    Some((o1, i2)) => {
                        if i2 < s.len() && s[i2] == DOT {
                            match parse_octet(s, i2 + 1) {
                                None => None,
                                Some((o2, i3)) => {
                                    if i3 < s.len() && s[i3] == DOT {
                                        match parse_octet(s, i3 + 1) {
                                            None => None,
                                            Some((o3, i4)) => {
                                                let v = ((o0 as u32) << 24u32) | ((o1 as u32)
                                                    << 16u32) | ((o2 as u32) << 8u32) | (
                                                o3 as u32);
                                                proof {
                                                    assert(seq![o0, o1, o2, o3][0] == o0);
                                                    assert(seq![o0, o1, o2, o3][1] == o1);
                                                    assert(seq![o0, o1, o2, o3][2] == o2);
                                                    assert(seq![o0, o1, o2, o3][3] == o3);
                                                }
                                                Some((v, i4))
                                            },
                                        }
                                    } else {
                                        None
                                    }
                                },
                            }
                        } else {
                            None
                        }
                    },
                }
            } else {
                None
            }
        },
    }
}

/// Parse an entire IPv4 address text.
pub fn parse_ipv4_addr(s: &[u8]) -> (r: Option<u32>)
    ensures
        r == spec_ipv4_addr(s@),
{
    match parse_ipv4_at(s, 0) {
        Some((v, j)) => {
            if j == s.len() {
                Some(v)
            } else {
                None
            }
        },
        None => None,
    }
}

/// Parse one IPv6 group of one to four hexadecimal digits at position `i`.
pub fn parse_group(s: &[u8], i: usize) -> (r: Option<(u16, usize)>)
    requires
        i <= s@.len(),
    ensures
        match r {
            Some(p) => spec_group(s@, i as int) == Some((p.0, p.1 as int)) && i < p.1 && p.1
                <= s@.len(),
            None => spec_group(s@, i as int) is None,
        },
{
    if i >= s.len() {
        return None;
    }
    match hex_digit(s[i]) {
        None => None,
        Some(d0) => {
            let d1opt = if i + 1 < s.len() {
                hex_digit(s[i + 1])
            } else {
                None
            };
            match d1opt {
                None => Some((d0 as u16, i + 1)),
                Some(d1) => {
                    let d2opt = if i + 2 < s.len() {
                        hex_digit(s[i + 2])
                    } else {
                        None
                    };
                    match d2opt {
                        None => Some(((d0 as u16) * 0x10 + (d1 as u16), i + 2)),
                        Some(d2) => {
                            let d3opt = if i + 3 < s.len() {
                                hex_digit(s[i + 3])
                            } else {
                                None
                            };
                            match d3opt {
                                None => Some(
                                    ((d0 as u16) * 0x100 + (d1 as u16) * 0x10 + (d2 as u16), i + 3),
                                ),
                                Some(d3) => Some(
                                    (
                                        (d0 as u16) * 0x1000 + (d1 as u16) * 0x100 + (d2 as u16)
                                            * 0x10 + (d3 as u16),
                                        i + 4,
                                    ),
                                ),
                            }
                        },
                    }
                },
            }
        },
    }
}

/// Parse a run of groups separated by single colons at position `i`.
pub fn parse_groups(s: &[u8], i: usize, fuel: u32) -> (r: (Vec<u16>, usize))
    requires
        i <= s@.len(),
    ensures
        ({
            let (gs, k) = spec_groups_from(s@, i as int, fuel as nat);
            r.0@ == gs && r.1 as int == k && i <= r.1 && r.1 <= s@.len() && r.0@.len()
                <= fuel
        }),
    decreases fuel,
{
    if fuel == 0 {
        return (Vec::new(), i);
    }
    match parse_group(s, i) {
        None => (Vec::new(), i),
        Some((g, j)) => {
            let next = if fuel > 1 && j < s.len() && s[j] == COLON {
                parse_group(s, j + 1)
            } else {
                None
            };
            if next.is_some() {
                let (mut rest, k) = parse_groups(s, j + 1, fuel - 1);
                rest.insert(0, g);
                proof {
                    let (gs, sk) = spec_groups_from(s@, i as int, fuel as nat);
                    assert(rest@ =~= gs);
                }
                (rest, k)
            } else {
                let mut one: Vec<u16> = Vec::new();
                one.push(g);
                proof {
                    let (gs, sk) = spec_groups_from(s@, i as int, fuel as nat);
                    assert(one@ =~= gs);
                }
                (one, j)
            }
        },
    }
}

/// Parse an entire IPv6 address text.
pub fn parse_ipv6_addr(s: &[u8]) -> (r: Option<u128>)
    ensures
        r == spec_ipv6_addr(s@),
{
    let (ls, i) = parse_groups(s, 0, 8);
    let ghost ls0 = ls@;
    if i == s.len() {
        if ls.len() == 8 {
            let v = crate::net::groups_to_value(ls.as_slice());
            Some(v)
        } else {
            None
        }
    } else if i + 1 < s.len() && s[i] == COLON && s[i + 1] == COLON {
        let (rs, j) = parse_groups(s, i + 2, 8);
        let ghost rs0 = rs@;
        if j == s.len() && ls.len() + rs.len() <= 7 {
            let zeros: usize = 8 - ls.len() - rs.len();
            let mut full = ls;
            let mut pushed: usize = 0;
            while pushed < zeros
                invariant
                    pushed <= zeros,
                    zeros + ls0.len() + rs0.len() == 8,
                    full@ =~= ls0 + Seq::new(pushed as nat, |k: int| 0u16),
                decreases zeros - pushed,
            {
                full.push(0u16);
                pushed = pushed + 1;
                proof {
                    assert(full@ =~= ls0 + Seq::new(pushed as nat, |k: int| 0u16));
                }
            }
            let mut tail = rs;
            full.append(&mut tail);
            proof {
                assert(full@ =~= ls0 + Seq::new(zeros as nat, |k: int| 0u16) + rs0);
            }
            let v = crate::net::groups_to_value(full.as_slice());
            Some(v)
        } else {
            None
        }
    } else {
        None
    }
}

/// First position holding byte `c`, or the length.
pub fn find_byte(s: &[u8], c: u8) -> (r: usize)
    ensures
        r as int == spec_find(s@, c, 0),
        r <= s@.len(),
        r < s@.len() ==> s@[r as int] == c,
{
    let n = s.len();
    let mut i: usize = 0;
    while i < n
        invariant
            i <= n,
            n == s@.len(),
            spec_find(s@, c, 0) == spec_find(s@, c, i as int),
            forall|k: int| 0 <= k < i ==> s@[k] != c,
        decreases n - i,
    {
        if s[i] == c {
            return i;
        }
        i = i + 1;
    }
    i
}

/// Parse an entire IP address text; a colon anywhere selects the IPv6 form.
pub fn parse_ip_addr(s: &[u8]) -> (r: Option<IpAddr>)
    ensures
        r == spec_parse_ip_addr(s@),
{
    if find_byte(s, COLON) < s.len() {
        match parse_ipv6_addr(s) {
            Some(v) => Some(IpAddr::V6(v)),
            None => None,
        }
    } else {
        match parse_ipv4_addr(s) {
            Some(v) => Some(IpAddr::V4(v)),
            None => None,
        }
    }
}

/// Parse an entire decimal prefix length text.
pub fn parse_prefix_text(s: &[u8]) -> (r: Option<u8>)
    ensures
        r == spec_prefix_text(s@),
{
    match parse_octet(s, 0) {
        Some((v, j)) => {
            if j == s.len() {
                Some(v)
            } else {
                None
            }
        },
        None => None,
    }
}

/// Parse an entire network text: `address` or `address/prefix`. Exactly the
/// texts [`spec_parse_ip_net`] accepts are accepted; everything else is a
/// [`NetParseError`].
pub fn parse_ip_net(s: &[u8]) -> (r: Result<IpNet, NetParseError>)
    ensures
        r is Ok <==> spec_parse_ip_net(s@) is Some,
        r is Ok ==> Some(r.unwrap()) == spec_parse_ip_net(s@) && r.unwrap().wf(),
{
    let sl = find_byte(s, SLASH);
    if sl == s.len() {
        match parse_ip_addr(s) {
            Some(ip) => Ok(IpNet::host(ip)),
            None => Err(NetParseError),
        }
    } else {
        let addr_part = &s[0..sl];
        proof {
            assert(addr_part@ =~= s@.subrange(0, sl as int));
        }
        match parse_ip_addr(addr_part) {
            None => Err(NetParseError),
            Some(ip) => {
                let len_part = &s[sl + 1..s.len()];
                proof {
                    assert(len_part@ =~= s@.subrange(sl + 1, s@.len() as int));
                }
                match parse_prefix_text(len_part) {
                    None => Err(NetParseError),
                    Some(p) => match ip {
                        IpAddr::V4(a) => {
                            if p <= 32 {
                                Ok(IpNet::V4(Ipv4Net { addr: a, prefix_len: p }))
                            } else {
                                Err(NetParseError)
                            }
                        },
                        IpAddr::V6(a) => {
                            if p <= 128 {
                                Ok(IpNet::V6(Ipv6Net { addr: a, prefix_len: p }))
                            } else {
                                Err(NetParseError)
                            }
                        },
                    },
                }
            },
        }
    }
}

} // verus!
