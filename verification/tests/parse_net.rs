use rama::net::PrefixLenError;
use rama::parse::{parse_ip_addr, parse_ip_net, NetParseError};
use rama::{IpAddr, IpNet};

#[test]
fn parses_ipv4_network_exactly() {
    let net = parse_ip_net(b"192.168.0.0/24").unwrap();
    match net {
        IpNet::V4(n) => {
            assert_eq!(n.addr, 0xC0A8_0000);
            assert_eq!(n.prefix_len, 24);
        }
        IpNet::V6(_) => panic!("wrong family"),
    }
}

#[test]
fn parses_plain_ipv4_address_as_host_network() {
    let net = parse_ip_net(b"10.0.0.7").unwrap();
    match net {
        IpNet::V4(n) => {
            assert_eq!(n.addr, 0x0A00_0007);
            assert_eq!(n.prefix_len, 32);
        }
        IpNet::V6(_) => panic!("wrong family"),
    }
    assert!(net.contains(&IpAddr::V4(0x0A00_0007)));
    assert!(!net.contains(&IpAddr::V4(0x0A00_0008)));
}

#[test]
fn parses_ipv6_network_exactly() {
    let net = parse_ip_net(b"fd00::/16").unwrap();
    match net {
        IpNet::V6(n) => {
            assert_eq!(n.addr, 0xfd00 << 112);
            assert_eq!(n.prefix_len, 16);
        }
        IpNet::V4(_) => panic!("wrong family"),
    }
}

#[test]
fn parses_ipv6_addresses() {
    assert_eq!(parse_ip_addr(b"::"), Some(IpAddr::V6(0)));
    assert_eq!(parse_ip_addr(b"::1"), Some(IpAddr::V6(1)));
    assert_eq!(
        parse_ip_addr(b"1:2:3:4:5:6:7:8"),
        Some(IpAddr::V6(
            (1u128 << 112)
                | (2u128 << 96)
                | (3u128 << 80)
                | (4u128 << 64)
                | (5u128 << 48)
                | (6u128 << 32)
                | (7u128 << 16)
                | 8u128
        ))
    );
    assert_eq!(
        parse_ip_addr(b"fd00::1"),
        Some(IpAddr::V6((0xfd00u128 << 112) | 1))
    );
    assert_eq!(
        parse_ip_addr(b"1::8"),
        Some(IpAddr::V6((1u128 << 112) | 8))
    );
    assert_eq!(parse_ip_addr(b"a::"), Some(IpAddr::V6(0xau128 << 112)));
}

#[test]
fn rejects_malformed_network_text() {
    assert_eq!(parse_ip_net(b"not-a-net"), Err(NetParseError));
    assert_eq!(parse_ip_net(b""), Err(NetParseError));
    assert_eq!(parse_ip_net(b"256.0.0.1"), Err(NetParseError));
    assert_eq!(parse_ip_net(b"1.2.3"), Err(NetParseError));
    assert_eq!(parse_ip_net(b"01.2.3.4"), Err(NetParseError));
    assert_eq!(parse_ip_net(b"1.2.3.4.5"), Err(NetParseError));
    assert_eq!(parse_ip_net(b"192.168.0.0/33"), Err(NetParseError));
    assert_eq!(parse_ip_net(b"192.168.0.0/"), Err(NetParseError));
    assert_eq!(parse_ip_net(b"192.168.0.0/a"), Err(NetParseError));
    assert_eq!(parse_ip_net(b"fd00::/129"), Err(NetParseError));
    assert_eq!(parse_ip_net(b"g::1"), Err(NetParseError));
    assert_eq!(parse_ip_net(b"1::2::3"), Err(NetParseError));
    assert_eq!(parse_ip_net(b"1:2:3:4:5:6:7:8:9"), Err(NetParseError));
    assert_eq!(parse_ip_net(b"12345::"), Err(NetParseError));
    assert_eq!(parse_ip_net(b":1"), Err(NetParseError));
}

#[test]
fn family_strict_containment() {
    let v4 = parse_ip_net(b"127.0.0.0/8").unwrap();
    let v6 = parse_ip_net(b"::1/128").unwrap();
    // an IPv4 network never matches an IPv6 address, and vice versa
    assert!(!v4.contains(&IpAddr::V6(1)));
    assert!(!v6.contains(&IpAddr::V4(0x7F00_0001)));
    assert!(v4.contains(&IpAddr::V4(0x7F00_0001)));
    assert!(v6.contains(&IpAddr::V6(1)));
}

#[test]
fn net_constructors_reject_overlong_prefixes() {
    assert_eq!(rama::Ipv4Net::new(0, 33), Err(PrefixLenError));
    assert_eq!(rama::Ipv6Net::new(0, 129), Err(PrefixLenError));
    assert!(rama::Ipv4Net::new(0xC0A80000, 24).is_ok());
    assert!(rama::Ipv6Net::new(1, 128).is_ok());
}

#[test]
fn octet_boundaries_parse_exactly() {
    assert_eq!(parse_ip_addr(b"255.255.255.255"), Some(IpAddr::V4(0xFFFF_FFFF)));
    assert_eq!(parse_ip_addr(b"0.0.0.0"), Some(IpAddr::V4(0)));
    assert_eq!(parse_ip_addr(b"1.22.333.4"), None);
    assert_eq!(parse_ip_addr(b"ffff:ffff:ffff:ffff:ffff:ffff:ffff:ffff"), Some(IpAddr::V6(u128::MAX)));
}
