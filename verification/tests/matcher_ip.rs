use rama::parse::{parse_ip_addr, parse_ip_net};
use rama::{Context, IpNetFilter, Request, Socket, SocketAddr, SocketInfo};

const SUBNET_IPV4: &str = "192.168.0.0/24";
const SUBNET_IPV4_VALID_CASES: [&str; 2] = ["192.168.0.0/25", "192.168.0.1"];
const SUBNET_IPV4_INVALID_CASES: [&str; 2] = ["192.167.0.0/23", "192.168.1.0"];

const SUBNET_IPV6: &str = "fd00::/16";
const SUBNET_IPV6_VALID_CASES: [&str; 2] = ["fd00::/17", "fd00::1"];
const SUBNET_IPV6_INVALID_CASES: [&str; 2] = ["fd01::/15", "fd01::"];

fn socket_addr_from_case(s: &str) -> SocketAddr {
    if s.contains('/') {
        let ip_net = parse_ip_net(s.as_bytes()).unwrap();
        SocketAddr::new(ip_net.addr(), 60000)
    } else {
        let ip_addr = parse_ip_addr(s.as_bytes()).unwrap();
        SocketAddr::new(ip_addr, 60000)
    }
}

fn hello_request() -> Request {
    Request::new(b"GET".to_vec(), b"/hello".to_vec())
}

#[test]
fn ip_test_socket_filter_http() {
    let filter = IpNetFilter::new([127, 0, 0, 1]);

    let mut ctx: Context<()> = Context::default();
    let req = hello_request();

    // test #1: no match: test with no socket info registered
    assert!(!filter.matches(&ctx, &req));

    // test #2: no match: test with different socket info (ip addr difference)
    ctx.insert(SocketInfo::new(None, SocketAddr::v4([127, 0, 0, 2], 8080)));
    assert!(!filter.matches(&ctx, &req));

    // test #3: match: test with correct address
    ctx.insert(SocketInfo::new(None, SocketAddr::v4([127, 0, 0, 1], 8080)));
    assert!(filter.matches(&ctx, &req));

    // test #4: match: test with missing socket info, but it's seen as optional
    let filter = IpNetFilter::optional([127, 0, 0, 1]);
    let mut ctx: Context<()> = Context::default();
    assert!(filter.matches(&ctx, &req));

    // test #5: match: valid ipv4 subnets
    let filter = IpNetFilter::new(SUBNET_IPV4);
    for subnet in SUBNET_IPV4_VALID_CASES.iter() {
        let addr = socket_addr_from_case(subnet);
        ctx.insert(SocketInfo::new(None, addr));
        assert!(
            filter.matches(&ctx, &req),
            "valid ipv4 subnets => {} >=? {:?} ({})",
            SUBNET_IPV4,
            addr,
            subnet
        );
    }

    // test #6: match: valid ipv6 subnets
    let filter = IpNetFilter::new(SUBNET_IPV6);
    for subnet in SUBNET_IPV6_VALID_CASES.iter() {
        let addr = socket_addr_from_case(subnet);
        ctx.insert(SocketInfo::new(None, addr));
        assert!(
            filter.matches(&ctx, &req),
            "valid ipv6 subnets => {} >=? {:?} ({})",
            SUBNET_IPV6,
            addr,
            subnet
        );
    }

    // test #7: match: invalid ipv4 subnets
    let filter = IpNetFilter::new(SUBNET_IPV4);
    for subnet in SUBNET_IPV4_INVALID_CASES.iter() {
        let addr = socket_addr_from_case(subnet);
        ctx.insert(SocketInfo::new(None, addr));
        assert!(
            !filter.matches(&ctx, &req),
            "invalid ipv4 subnets => {} >=? {:?} ({})",
            SUBNET_IPV4,
            addr,
            subnet
        );
    }

    // test #8: match: invalid ipv6 subnets
    let filter = IpNetFilter::new(SUBNET_IPV6);
    for subnet in SUBNET_IPV6_INVALID_CASES.iter() {
        let addr = socket_addr_from_case(subnet);
        ctx.insert(SocketInfo::new(None, addr));
        assert!(
            !filter.matches(&ctx, &req),
            "invalid ipv6 subnets => {} >=? {:?} ({})",
            SUBNET_IPV6,
            addr,
            subnet
        );
    }
}

#[test]
fn ip_test_socket_filter_socket_trait() {
    let filter = IpNetFilter::new([127, 0, 0, 1]);

    let ctx: Context<()> = Context::default();

    // test #1: no match: test with different socket info (ip addr difference)
    let socket = Socket::new(None, Some(SocketAddr::v4([127, 0, 0, 2], 8080)));
    assert!(!filter.matches_socket(&ctx, &socket));

    // test #2: match: test with correct address
    let socket = Socket::new(None, Some(SocketAddr::v4([127, 0, 0, 1], 8080)));
    assert!(filter.matches_socket(&ctx, &socket));

    // test #3: match: test with missing socket info, but it's seen as optional
    let filter = IpNetFilter::optional([127, 0, 0, 1]);
    let socket = Socket::new(None, None);
    assert!(filter.matches_socket(&ctx, &socket));

    // test #4: match: valid ipv4 subnets
    let filter = IpNetFilter::new(SUBNET_IPV4);
    for subnet in SUBNET_IPV4_VALID_CASES.iter() {
        let addr = socket_addr_from_case(subnet);
        let socket = Socket::new(None, Some(addr));
        assert!(
            filter.matches_socket(&ctx, &socket),
            "valid ipv4 subnets => {} >=? {:?} ({})",
            SUBNET_IPV4,
            addr,
            subnet
        );
    }

    // test #5: match: valid ipv6 subnets
    let filter = IpNetFilter::new(SUBNET_IPV6);
    for subnet in SUBNET_IPV6_VALID_CASES.iter() {
        let addr = socket_addr_from_case(subnet);
        let socket = Socket::new(None, Some(addr));
        assert!(
            filter.matches_socket(&ctx, &socket),
            "valid ipv6 subnets => {} >=? {:?} ({})",
            SUBNET_IPV6,
            addr,
            subnet
        );
    }

    // test #6: match: invalid ipv4 subnets
    let filter = IpNetFilter::new(SUBNET_IPV4);
    for subnet in SUBNET_IPV4_INVALID_CASES.iter() {
        let addr = socket_addr_from_case(subnet);
        let socket = Socket::new(None, Some(addr));
        assert!(
            !filter.matches_socket(&ctx, &socket),
            "invalid ipv4 subnets => {} >=? {:?} ({})",
            SUBNET_IPV4,
            addr,
            subnet
        );
    }

    // test #7: match: invalid ipv6 subnets
    let filter = IpNetFilter::new(SUBNET_IPV6);
    for subnet in SUBNET_IPV6_INVALID_CASES.iter() {
        let addr = socket_addr_from_case(subnet);
        let socket = Socket::new(None, Some(addr));
        assert!(
            !filter.matches_socket(&ctx, &socket),
            "invalid ipv6 subnets => {} >=? {:?} ({})",
            SUBNET_IPV6,
            addr,
            subnet
        );
    }
}
