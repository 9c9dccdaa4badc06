use rama::{
    Context, Extensions, LoopbackFilter, Matcher, MethodFilter, PathFilter, PortFilter, Request,
    SocketAddr, SocketInfo,
};

fn request(method: &str, path: &str) -> Request {
    Request::new(method.as_bytes().to_vec(), path.as_bytes().to_vec())
}

#[test]
fn path_glob_requires_the_separator() {
    let ctx: Context<()> = Context::default();
    let filter = PathFilter::new(b"/api/*".to_vec());
    // the glob set is exactly the paths extending "/api/"
    assert!(!filter.matches(&ctx, &request("GET", "/api")));
    assert!(filter.matches(&ctx, &request("GET", "/api/")));
    assert!(filter.matches(&ctx, &request("GET", "/api/users")));
    assert!(filter.matches(&ctx, &request("GET", "/api/users/42")));
    assert!(!filter.matches(&ctx, &request("GET", "/apix")));
    assert!(!filter.matches(&ctx, &request("GET", "/ap")));
}

#[test]
fn path_without_star_is_exact() {
    let ctx: Context<()> = Context::default();
    let filter = PathFilter::new(b"/exact".to_vec());
    assert!(filter.matches(&ctx, &request("GET", "/exact")));
    assert!(!filter.matches(&ctx, &request("GET", "/exact/")));
    assert!(!filter.matches(&ctx, &request("GET", "/exac")));
}

#[test]
fn method_filter_is_case_insensitive() {
    let ctx: Context<()> = Context::default();
    let filter = MethodFilter::new(b"GET".to_vec());
    assert!(filter.matches(&ctx, &request("GET", "/")));
    assert!(filter.matches(&ctx, &request("get", "/")));
    assert!(filter.matches(&ctx, &request("GeT", "/")));
    assert!(!filter.matches(&ctx, &request("POST", "/")));
}

#[test]
fn negate_inverts_and_twice_restores() {
    let req = request("GET", "/");
    let mut ctx: Context<()> = Context::default();
    ctx.insert(SocketInfo::new(None, SocketAddr::v4([127, 0, 0, 1], 9000)));

    let plain = Matcher::Loopback(LoopbackFilter::new());
    assert!(plain.matches(&ctx, &req));

    let negated = Matcher::Loopback(LoopbackFilter::new()).negate();
    assert!(!negated.matches(&ctx, &req));

    let twice = Matcher::Loopback(LoopbackFilter::new()).negate().negate();
    assert!(twice.matches(&ctx, &req));

    ctx.insert(SocketInfo::new(None, SocketAddr::v4([203, 0, 113, 5], 9000)));
    let negated = Matcher::Loopback(LoopbackFilter::new()).negate();
    assert!(negated.matches(&ctx, &req));
    let twice = Matcher::Loopback(LoopbackFilter::new()).negate().negate();
    assert!(!twice.matches(&ctx, &req));
}

#[test]
fn all_and_any_combinators() {
    let mut ctx: Context<()> = Context::default();
    ctx.insert(SocketInfo::new(None, SocketAddr::v4([127, 0, 0, 1], 9000)));
    let req = request("GET", "/api/x");

    let both = Matcher::all(vec![
        Matcher::Path(PathFilter::new(b"/api/*".to_vec())),
        Matcher::Loopback(LoopbackFilter::new()),
    ]);
    assert!(both.matches(&ctx, &req));

    let one_false = Matcher::all(vec![
        Matcher::Path(PathFilter::new(b"/api/*".to_vec())),
        Matcher::Port(PortFilter::new(1)),
    ]);
    assert!(!one_false.matches(&ctx, &req));

    let either = Matcher::any(vec![
        Matcher::Port(PortFilter::new(1)),
        Matcher::Loopback(LoopbackFilter::new()),
    ]);
    assert!(either.matches(&ctx, &req));

    let neither = Matcher::any(vec![
        Matcher::Port(PortFilter::new(1)),
        Matcher::Path(PathFilter::new(b"/other".to_vec())),
    ]);
    assert!(!neither.matches(&ctx, &req));

    let empty_all = Matcher::all(vec![]);
    assert!(empty_all.matches(&ctx, &req));

    let empty_any = Matcher::any(vec![]);
    assert!(!empty_any.matches(&ctx, &req));
}

#[test]
fn peer_fallback_equals_optional_flag() {
    // with no peer information, each peer-address filter matches exactly
    // when built optional
    let ctx: Context<()> = Context::default();
    let req = request("GET", "/");
    assert!(!LoopbackFilter::new().matches(&ctx, &req));
    assert!(LoopbackFilter::optional().matches(&ctx, &req));
    assert!(!PortFilter::new(80).matches(&ctx, &req));
    assert!(PortFilter::optional(80).matches(&ctx, &req));
}

#[test]
fn successful_glob_evaluation_records_the_capture() {
    let mut ctx: Context<()> = Context::default();
    ctx.insert(SocketInfo::new(None, SocketAddr::v4([127, 0, 0, 1], 9000)));
    let req = request("GET", "/api/users/42");
    let mut scratch = Extensions::new();

    let m = Matcher::Path(PathFilter::new(b"/api/*".to_vec()));
    assert!(m.evaluate(&ctx, &req, &mut scratch));
    assert_eq!(scratch.path_capture().unwrap().as_slice(), b"users/42");
}

#[test]
fn failed_composite_evaluation_leaves_scratch_unchanged() {
    let mut ctx: Context<()> = Context::default();
    ctx.insert(SocketInfo::new(None, SocketAddr::v4([127, 0, 0, 1], 9000)));
    let req = request("GET", "/api/users");
    let mut scratch = Extensions::new();

    // the glob child matches and would capture, but the composite fails:
    // nothing may leak into the caller's scratch
    let m = Matcher::all(vec![
        Matcher::Path(PathFilter::new(b"/api/*".to_vec())),
        Matcher::Port(PortFilter::new(1)),
    ]);
    assert!(!m.evaluate(&ctx, &req, &mut scratch));
    assert!(scratch.path_capture().is_none());

    // once the composite holds, the capture is committed
    let m = Matcher::all(vec![
        Matcher::Path(PathFilter::new(b"/api/*".to_vec())),
        Matcher::Port(PortFilter::new(9000)),
    ]);
    assert!(m.evaluate(&ctx, &req, &mut scratch));
    assert_eq!(scratch.path_capture().unwrap().as_slice(), b"users");
}
