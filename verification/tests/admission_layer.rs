use rama::{
    AdmissionLayer, Backoff, CallStep, ConcurrentPolicy, Context, Extensions, LoopbackFilter,
    Matcher, PathFilter, Permit, PolicyCell, Request, Selection, SocketAddr, SocketInfo,
};

fn request(path: &str) -> Request {
    Request::new(b"GET".to_vec(), path.as_bytes().to_vec())
}

fn ctx_with_peer(octets: [u8; 4], port: u16) -> Context<()> {
    let mut ctx: Context<()> = Context::default();
    ctx.insert(SocketInfo::new(None, SocketAddr::v4(octets, port)));
    ctx
}

fn run_call(layer: &mut AdmissionLayer, ctx: &Context<()>, req: &Request) -> CallStep {
    let sel = layer.select(ctx, req);
    layer.poll(sel, 0, false, false)
}

fn expect_permit(step: CallStep) -> Permit {
    match step {
        CallStep::Admitted(p) => p,
        other => panic!("expected an admitted call, got {:?}", other),
    }
}

#[test]
fn non_loopback_peers_share_one_slot() {
    // one row: peers that are not loopback fall under a max-1 policy
    let row = (
        Matcher::Loopback(LoopbackFilter::new()).negate(),
        Some(PolicyCell::Leaf(ConcurrentPolicy::new(1))),
    );
    let mut layer = AdmissionLayer::new(vec![row]);
    let req = request("/");

    let remote = ctx_with_peer([203, 0, 113, 5], 41000);
    let first = run_call(&mut layer, &remote, &req);
    let permit = expect_permit(first);

    // a second concurrent remote call is over the limit
    let remote2 = ctx_with_peer([203, 0, 113, 5], 41001);
    assert!(matches!(run_call(&mut layer, &remote2, &req), CallStep::Rejected));

    // a loopback caller matches no row and passes through unconditionally
    let local = ctx_with_peer([127, 0, 0, 1], 41002);
    let sel = layer.select(&local, &req);
    assert_eq!(sel, Selection::NoMatch);
    assert!(matches!(layer.poll(sel, 0, false, false), CallStep::Forward));

    layer.finish(permit);
    assert_eq!(layer.in_flight_of(0), 0);
}

#[test]
fn match_and_admit_bypasses_limits() {
    // one row: the admin subtree is matched and admitted unconditionally
    let row = (Matcher::Path(PathFilter::new(b"/admin/*".to_vec())), None);
    let mut layer = AdmissionLayer::new(vec![row]);
    let ctx = ctx_with_peer([10, 0, 0, 1], 50000);

    let sel = layer.select(&ctx, &request("/admin/users"));
    assert_eq!(sel, Selection::Unconditional);
    assert!(matches!(layer.poll(sel, 0, false, false), CallStep::Forward));

    // a path outside the row forwards unchanged as well, via no match
    let sel = layer.select(&ctx, &request("/user"));
    assert_eq!(sel, Selection::NoMatch);
    assert!(matches!(layer.poll(sel, 0, false, false), CallStep::Forward));
}

#[test]
fn saturated_policy_backs_off_then_admits_after_release() {
    let row = (
        Matcher::Path(PathFilter::new(b"/limit/*".to_vec())),
        Some(PolicyCell::Leaf(ConcurrentPolicy::with_backoff(
            2,
            Some(Backoff::exponential(10, 80)),
        ))),
    );
    let mut layer = AdmissionLayer::new(vec![row]);
    let ctx = ctx_with_peer([10, 0, 0, 2], 50001);
    let req = request("/limit/slow");

    let a = expect_permit(run_call(&mut layer, &ctx, &req));
    let b = expect_permit(run_call(&mut layer, &ctx, &req));
    assert_eq!(layer.in_flight_of(0), 2);

    // the third concurrent call is told to sleep per the schedule
    let sel = layer.select(&ctx, &req);
    assert!(matches!(layer.poll(sel, 0, false, false), CallStep::Sleep(10)));
    assert!(matches!(layer.poll(sel, 1, false, false), CallStep::Sleep(20)));

    // one of the first two releases; the retry is admitted
    layer.finish(a);
    let c = expect_permit(layer.poll(sel, 2, false, false));
    assert_eq!(layer.in_flight_of(0), 2);

    layer.finish(b);
    layer.finish(c);
    assert_eq!(layer.in_flight_of(0), 0);
}

#[test]
fn external_timeout_cancels_the_waiter() {
    let row = (
        Matcher::Path(PathFilter::new(b"/limit/*".to_vec())),
        Some(PolicyCell::Leaf(ConcurrentPolicy::with_backoff(
            2,
            Some(Backoff::exponential(10, 80)),
        ))),
    );
    let mut layer = AdmissionLayer::new(vec![row]);
    let ctx = ctx_with_peer([10, 0, 0, 3], 50002);
    let req = request("/limit/slow");

    let a = expect_permit(run_call(&mut layer, &ctx, &req));
    let b = expect_permit(run_call(&mut layer, &ctx, &req));

    // the wrapping timeout fires while the third call sleeps: it is
    // cancelled, and the policy's in-flight count stays at two
    let sel = layer.select(&ctx, &req);
    assert!(matches!(layer.poll(sel, 0, false, false), CallStep::Sleep(_)));
    assert!(matches!(layer.poll(sel, 1, true, false), CallStep::Cancelled));
    assert_eq!(layer.in_flight_of(0), 2);

    layer.finish(a);
    layer.finish(b);
    assert_eq!(layer.in_flight_of(0), 0);
}

#[test]
fn nested_tree_selects_leaf_fallback_or_pass_through() {
    let sub = vec![
        (
            Matcher::Path(PathFilter::new(b"/api/slow".to_vec())),
            Some(PolicyCell::Leaf(ConcurrentPolicy::with_backoff(
                1,
                Some(Backoff::exponential(5, 40)),
            ))),
        ),
        (Matcher::Path(PathFilter::new(b"/api/fast".to_vec())), None),
    ];
    let fallback = Some(ConcurrentPolicy::with_backoff(5, Some(Backoff::exponential(5, 40))));
    let outer = vec![(
        Matcher::Path(PathFilter::new(b"/api/*".to_vec())),
        Some(PolicyCell::Tree(sub, fallback)),
    )];
    let mut layer = AdmissionLayer::new(outer);
    let ctx = ctx_with_peer([10, 0, 0, 4], 50003);

    // the slow route uses the max-1 leaf
    let slow = layer.select(&ctx, &request("/api/slow"));
    let p1 = expect_permit(layer.poll(slow, 0, false, false));
    assert!(matches!(layer.poll(slow, 0, false, false), CallStep::Sleep(5)));

    // the fast route is unconditional
    let fast = layer.select(&ctx, &request("/api/fast"));
    assert_eq!(fast, Selection::Unconditional);

    // any other api route uses the max-5 fallback
    let other = layer.select(&ctx, &request("/api/other"));
    assert_ne!(other, slow);
    let p2 = expect_permit(layer.poll(other, 0, false, false));

    // a path outside the outer row reaches no row at all
    let unrelated = layer.select(&ctx, &request("/unrelated"));
    assert_eq!(unrelated, Selection::NoMatch);

    layer.finish(p1);
    layer.finish(p2);
    assert_eq!(layer.in_flight_of(0), 0);
    assert_eq!(layer.in_flight_of(1), 0);
}

#[test]
fn cancellation_during_backoff_leaks_no_slot() {
    let row = (
        Matcher::Path(PathFilter::new(b"/one/*".to_vec())),
        Some(PolicyCell::Leaf(ConcurrentPolicy::with_backoff(
            1,
            Some(Backoff::exponential(10, 80)),
        ))),
    );
    let mut layer = AdmissionLayer::new(vec![row]);
    let ctx = ctx_with_peer([10, 0, 0, 5], 50004);
    let req = request("/one/x");

    // call A holds the single slot; call B backs off, then is cancelled
    let a = expect_permit(run_call(&mut layer, &ctx, &req));
    let sel_b = layer.select(&ctx, &req);
    assert!(matches!(layer.poll(sel_b, 0, false, false), CallStep::Sleep(_)));
    assert!(matches!(layer.poll(sel_b, 1, true, false), CallStep::Cancelled));

    // A completes normally; nothing leaked
    layer.finish(a);
    assert_eq!(layer.in_flight_of(0), 0);
}

#[test]
fn first_matching_row_wins() {
    let rows = vec![
        (
            Matcher::Path(PathFilter::new(b"/a/*".to_vec())),
            Some(PolicyCell::Leaf(ConcurrentPolicy::new(1))),
        ),
        (
            Matcher::Path(PathFilter::new(b"/a/b".to_vec())),
            Some(PolicyCell::Leaf(ConcurrentPolicy::new(7))),
        ),
    ];
    let mut layer = AdmissionLayer::new(rows);
    let ctx = ctx_with_peer([10, 0, 0, 6], 50005);

    // "/a/b" matches both rows; only the first row's policy is consulted
    let sel = layer.select(&ctx, &request("/a/b"));
    let p = expect_permit(layer.poll(sel, 0, false, false));
    assert_eq!(layer.in_flight_of(0), 1);
    assert_eq!(layer.in_flight_of(1), 0);
    let sel2 = layer.select(&ctx, &request("/a/b"));
    assert!(matches!(layer.poll(sel2, 0, false, false), CallStep::Rejected));
    assert_eq!(layer.in_flight_of(1), 0);
    layer.finish(p);
}

#[test]
fn selection_with_scratch_commits_only_the_winning_row() {
    let rows = vec![
        (
            Matcher::Path(PathFilter::new(b"/static/*".to_vec())),
            Some(PolicyCell::Leaf(ConcurrentPolicy::new(3))),
        ),
        (
            Matcher::Path(PathFilter::new(b"/api/*".to_vec())),
            Some(PolicyCell::Leaf(ConcurrentPolicy::new(2))),
        ),
    ];
    let mut layer = AdmissionLayer::new(rows);
    let ctx = ctx_with_peer([10, 0, 0, 7], 50006);

    // the first row fails and writes nothing; the second commits its capture
    let mut scratch = Extensions::new();
    let sel = layer.select_with_scratch(&ctx, &request("/api/users"), &mut scratch);
    assert_eq!(sel, Selection::Limited(1));
    assert_eq!(scratch.path_capture().unwrap().as_slice(), b"users");

    // a call that matches no row leaves the scratch untouched
    let mut scratch = Extensions::new();
    let sel = layer.select_with_scratch(&ctx, &request("/other"), &mut scratch);
    assert_eq!(sel, Selection::NoMatch);
    assert!(scratch.path_capture().is_none());
    let p = expect_permit(layer.poll(Selection::Limited(1), 0, false, false));
    layer.finish(p);
}
