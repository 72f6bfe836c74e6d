use searxng_mcp::body::read_bounded;
use searxng_mcp::config::BrowseFileConfig;
use searxng_mcp::body::BodyReader;
use searxng_mcp::errors::DenyReason;
use searxng_mcp::errors::FetchError;
use searxng_mcp::config::BrowseConfig;
use searxng_mcp::ip::IpAddress;
use searxng_mcp::ip::IpClass;
use searxng_mcp::ip::parse_ip_literal;
use searxng_mcp::policy::check_resolved_addresses;
use searxng_mcp::policy::evaluate_target;
use searxng_mcp::policy::host_is_obviously_local;
use searxng_mcp::policy::policy_allows_host;
use searxng_mcp::policy::TargetCheck;
use searxng_mcp::render::body_to_markdown;
use searxng_mcp::sanitize::strip_styles_and_scripts;
use searxng_mcp::walker::handle_response;
use searxng_mcp::walker::hop_target_check;
use searxng_mcp::walker::start_walk;
use searxng_mcp::walker::content_type_allowed;
use searxng_mcp::walker::HopCheck;
use searxng_mcp::walker::HopOutcome;
use searxng_mcp::walker::WalkerState;

fn v4(a: u8, b: u8, c: u8, d: u8) -> IpAddress {
    IpAddress::V4 { a, b, c, d }
}

#[test]
fn strips_style_and_script_tags() {
    let html = "<html><head><style>body{color:red}</style><script>alert(1)</script></head><body><h1>Hi</h1></body></html>";
    let cleaned = strip_styles_and_scripts(html);
    assert!(!cleaned.contains("style"));
    assert!(!cleaned.contains("script"));
    assert!(cleaned.contains("<h1>Hi</h1>"));
}

#[test]
fn ip_private_v4_cases() {
    assert!(v4(127, 0, 0, 1).is_private());
    assert!(v4(10, 0, 0, 1).is_private());
    assert!(v4(192, 168, 1, 1).is_private());
    assert!(!v4(8, 8, 8, 8).is_private());
}

#[test]
fn ip_private_v6_cases() {
    assert!(IpAddress::V6 { s: [0, 0, 0, 0, 0, 0, 0, 1] }.is_private());
    assert!(IpAddress::V6 { s: [0, 0, 0, 0, 0, 0, 0, 0] }.is_private());
    assert!(parse_ip_literal("fc00::1").unwrap().is_private());
    assert!(parse_ip_literal("fe80::1").unwrap().is_private());
    assert!(!parse_ip_literal("2606:4700:4700::1111").unwrap().is_private());
}

#[test]
fn policy_allowlist_overrides_private_block() {
    let host = "localhost";
    let allowed = vec!["localhost".to_string()];

    // Allowlist includes localhost: should pass even if allow_private=false.
    assert!(policy_allows_host(host, false, Some(&allowed)).is_ok());

    // Allowlist excludes localhost: should fail.
    let allowed_other = vec!["example.com".to_string()];
    assert!(policy_allows_host(host, false, Some(&allowed_other)).is_err());
}

#[test]
fn ip_literal_parsing() {
    assert_eq!(parse_ip_literal("1.2.3.4"), Some(v4(1, 2, 3, 4)));
    assert_eq!(parse_ip_literal("255.255.255.255"), Some(v4(255, 255, 255, 255)));
    assert_eq!(parse_ip_literal("256.0.0.1"), None);
    assert_eq!(parse_ip_literal("1.2.3"), None);
    assert_eq!(parse_ip_literal("01.2.3.4"), None);
    assert_eq!(parse_ip_literal("example.com"), None);
    assert_eq!(parse_ip_literal(""), None);
    assert_eq!(
        parse_ip_literal("2001:db8::1"),
        Some(IpAddress::V6 { s: [0x2001, 0xdb8, 0, 0, 0, 0, 0, 1] })
    );
    assert_eq!(parse_ip_literal("::"), Some(IpAddress::V6 { s: [0; 8] }));
    assert_eq!(
        parse_ip_literal("[::1]"),
        Some(IpAddress::V6 { s: [0, 0, 0, 0, 0, 0, 0, 1] })
    );
    assert_eq!(parse_ip_literal("1:2:3:4:5:6:7:8:9"), None);
    assert_eq!(parse_ip_literal("1::2::3"), None);
    assert_eq!(
        parse_ip_literal("1:2:3:4:5:6:7:8"),
        Some(IpAddress::V6 { s: [1, 2, 3, 4, 5, 6, 7, 8] })
    );
}

#[test]
fn classify_cgnat_and_link_local() {
    assert_eq!(v4(100, 64, 0, 1).classify(), IpClass::Private);
    assert_eq!(v4(100, 127, 255, 255).classify(), IpClass::Private);
    assert_eq!(v4(100, 128, 0, 1).classify(), IpClass::Public);
    assert_eq!(v4(169, 254, 9, 9).classify(), IpClass::Private);
    assert_eq!(v4(172, 16, 0, 1).classify(), IpClass::Private);
    assert_eq!(v4(172, 32, 0, 1).classify(), IpClass::Public);
    assert_eq!(v4(0, 1, 2, 3).classify(), IpClass::Private);
}

#[test]
fn localhost_detection() {
    assert!(host_is_obviously_local("localhost"));
    assert!(host_is_obviously_local("LOCALHOST"));
    assert!(host_is_obviously_local("a.localhost"));
    assert!(!host_is_obviously_local("localhost.com"));
    assert!(!host_is_obviously_local("example.com"));
}

#[test]
fn evaluate_localhost_policy() {
    // Deny without allow_private, allow with it.
    match evaluate_target("localhost", false, None) {
        TargetCheck::Denied { error } => assert_eq!(
            error,
            FetchError::PolicyDenied { reason: DenyReason::LocalHostBlocked }
        ),
        other => panic!("expected denial, got {:?}", other),
    }
    assert_eq!(evaluate_target("localhost", true, None), TargetCheck::Allowed);
}

#[test]
fn evaluate_ip_literals() {
    match evaluate_target("127.0.0.1", false, None) {
        TargetCheck::Denied { error } => assert_eq!(
            error,
            FetchError::PolicyDenied { reason: DenyReason::PrivateIpBlocked }
        ),
        other => panic!("expected denial, got {:?}", other),
    }
    assert_eq!(evaluate_target("8.8.8.8", false, None), TargetCheck::Allowed);
    match evaluate_target("[::1]", false, None) {
        TargetCheck::Denied { error } => assert_eq!(
            error,
            FetchError::PolicyDenied { reason: DenyReason::PrivateIpBlocked }
        ),
        other => panic!("expected denial, got {:?}", other),
    }
    // A name must go through resolution.
    assert_eq!(
        evaluate_target("example.com", false, None),
        TargetCheck::NeedsResolution
    );
    // The allowlist skips IP heuristics entirely.
    let allowed = vec!["127.0.0.1".to_string()];
    assert_eq!(
        evaluate_target("127.0.0.1", false, Some(&allowed)),
        TargetCheck::Allowed
    );
}

#[test]
fn resolution_rules() {
    assert_eq!(
        check_resolved_addresses(None),
        Err(FetchError::PolicyDenied { reason: DenyReason::ResolutionFailed })
    );
    assert_eq!(
        check_resolved_addresses(Some(&vec![])),
        Err(FetchError::PolicyDenied { reason: DenyReason::ResolutionFailed })
    );
    assert_eq!(
        check_resolved_addresses(Some(&vec![v4(8, 8, 8, 8), v4(127, 0, 0, 1)])),
        Err(FetchError::PolicyDenied { reason: DenyReason::ResolvesToPrivate })
    );
    assert_eq!(check_resolved_addresses(Some(&vec![v4(8, 8, 8, 8)])), Ok(()));
}

#[test]
fn start_walk_scheme_gate() {
    let cfg = BrowseConfig::default();
    assert_eq!(start_walk("not a url", &cfg), Err(FetchError::InvalidUrl));
    match start_walk("ftp://example.com/x", &cfg) {
        Err(FetchError::UnsupportedScheme { scheme }) => assert_eq!(scheme, "ftp"),
        other => panic!("expected scheme error, got {:?}", other),
    }
    let st = start_walk("http://Example.COM/path", &cfg).unwrap();
    assert_eq!(st.hop, 0);
    assert_eq!(st.url.scheme, "http");
    assert_eq!(st.url.host.as_deref(), Some("example.com"));
    assert_eq!(st.url.port, Some(80));
}

#[test]
fn redirect_disabled_is_hard_error() {
    // follow_redirects=false: the first redirect status terminates the
    // walk as a status failure, never a silent success.
    let cfg = BrowseConfig::default();
    let st = start_walk("http://example.com/", &cfg).unwrap();
    let loc = "http://example.com/next".to_string();
    match handle_response(&st, &cfg, 302, Some(&loc), None) {
        HopOutcome::StatusFailure { status } => assert_eq!(status, 302),
        other => panic!("expected status failure, got {:?}", other),
    }
}

fn follow_chain(cfg: &BrowseConfig, start: &str, redirects: usize) -> Result<WalkerState, FetchError> {
    // Issue `redirects` redirect responses, each to a fresh path, and
    // return the state that would make the next request.
    let mut st = start_walk(start, cfg)?;
    for i in 0..redirects {
        let loc = format!("/hop{}", i + 1);
        match handle_response(&st, cfg, 301, Some(&loc), None) {
            HopOutcome::Follow { next } => st = next,
            HopOutcome::Fail { error } => return Err(error),
            other => panic!("unexpected outcome {:?}", other),
        }
    }
    Ok(st)
}

#[test]
fn redirect_chain_within_limit_succeeds() {
    let mut cfg = BrowseConfig::default();
    cfg.follow_redirects = true;
    cfg.max_redirects = 2;
    let st = follow_chain(&cfg, "http://example.com/", 2).unwrap();
    assert_eq!(st.hop, 2);
    assert_eq!(st.url.serialized, "http://example.com/hop2");
    let ct = "text/html; charset=utf-8".to_string();
    match handle_response(&st, &cfg, 200, None, Some(&ct)) {
        HopOutcome::ReadBody => {}
        other => panic!("expected body read, got {:?}", other),
    }
}

#[test]
fn redirect_chain_past_limit_fails() {
    let mut cfg = BrowseConfig::default();
    cfg.follow_redirects = true;
    cfg.max_redirects = 2;
    assert_eq!(
        follow_chain(&cfg, "http://example.com/", 3),
        Err(FetchError::TooManyRedirects { limit: 2 })
    );
}

#[test]
fn redirect_missing_location_is_bad() {
    let mut cfg = BrowseConfig::default();
    cfg.follow_redirects = true;
    let st = start_walk("http://example.com/", &cfg).unwrap();
    match handle_response(&st, &cfg, 302, None, None) {
        HopOutcome::Fail { error } => assert_eq!(error, FetchError::BadRedirect),
        other => panic!("expected bad redirect, got {:?}", other),
    }
}

#[test]
fn redirect_unresolvable_location_is_bad() {
    let mut cfg = BrowseConfig::default();
    cfg.follow_redirects = true;
    let st = start_walk("http://example.com/", &cfg).unwrap();
    // A Location that cannot resolve against the current URL.
    let loc = "http://[".to_string();
    match handle_response(&st, &cfg, 302, Some(&loc), None) {
        HopOutcome::Fail { error } => assert_eq!(error, FetchError::BadRedirect),
        other => panic!("expected bad redirect, got {:?}", other),
    }
}

#[test]
fn second_hop_resolving_private_is_denied() {
    // First hop is a public name, second redirects to a host that
    // resolves to 127.0.0.1: the walk is denied at the second hop.
    let mut cfg = BrowseConfig::default();
    cfg.follow_redirects = true;
    let st = start_walk("http://public.example/", &cfg).unwrap();

    // Hop 0: policy needs resolution; the answer is public, so proceed.
    let (host0, port0) = match hop_target_check(&st, &cfg) {
        HopCheck::Resolve { host, port } => (host, port),
        other => panic!("expected resolution, got {:?}", other),
    };
    assert_eq!((host0.as_str(), port0), ("public.example", 80));
    assert!(check_resolved_addresses(Some(&vec![v4(93, 184, 216, 34)])).is_ok());

    // Hop 0 redirects to another host.
    let loc = "http://internal.example/".to_string();
    let st = match handle_response(&st, &cfg, 302, Some(&loc), None) {
        HopOutcome::Follow { next } => next,
        other => panic!("expected follow, got {:?}", other),
    };

    // Hop 1: the policy runs afresh; its own resolution is private.
    match hop_target_check(&st, &cfg) {
        HopCheck::Resolve { host, .. } => assert_eq!(host, "internal.example"),
        other => panic!("expected resolution, got {:?}", other),
    }
    assert_eq!(
        check_resolved_addresses(Some(&vec![v4(127, 0, 0, 1)])),
        Err(FetchError::PolicyDenied { reason: DenyReason::ResolvesToPrivate })
    );
}

#[test]
fn hop_check_honours_allowlist() {
    let mut cfg = BrowseConfig::default();
    cfg.allowed_hosts = Some(vec!["example.com".to_string()]);
    let st = start_walk("http://example.com/", &cfg).unwrap();
    match hop_target_check(&st, &cfg) {
        HopCheck::Proceed => {}
        other => panic!("expected proceed, got {:?}", other),
    }
    let st2 = start_walk("http://other.com/", &cfg).unwrap();
    match hop_target_check(&st2, &cfg) {
        HopCheck::Deny { error } => assert_eq!(
            error,
            FetchError::PolicyDenied { reason: DenyReason::NotInAllowlist }
        ),
        other => panic!("expected denial, got {:?}", other),
    }
}

#[test]
fn content_type_gate() {
    assert!(content_type_allowed("text/html"));
    assert!(content_type_allowed("TEXT/HTML; charset=utf-8"));
    assert!(content_type_allowed("application/xhtml+xml"));
    assert!(content_type_allowed("application/xml"));
    assert!(!content_type_allowed("application/json"));
    assert!(!content_type_allowed("image/png"));

    let cfg = BrowseConfig::default();
    let st = start_walk("http://example.com/", &cfg).unwrap();
    let ct = "image/png".to_string();
    match handle_response(&st, &cfg, 200, None, Some(&ct)) {
        HopOutcome::Fail { error } => assert_eq!(
            error,
            FetchError::UnsupportedContentType { content_type: "image/png".to_string() }
        ),
        other => panic!("expected content-type failure, got {:?}", other),
    }
    // No content-type header at all: read the body.
    match handle_response(&st, &cfg, 200, None, None) {
        HopOutcome::ReadBody => {}
        other => panic!("expected body read, got {:?}", other),
    }
}

#[test]
fn bounded_reader_aborts_on_overflow() {
    // Cumulative overflow aborts even though each chunk alone fits.
    let chunks = vec![vec![1u8, 2, 3], vec![4u8, 5, 6]];
    assert_eq!(
        read_bounded(&chunks, 5),
        Err(FetchError::BodyTooLarge { limit: 5 })
    );
    assert_eq!(read_bounded(&chunks, 6), Ok(vec![1, 2, 3, 4, 5, 6]));

    let mut reader = BodyReader::new(4);
    assert!(reader.push_chunk(&vec![1, 2, 3]).is_ok());
    assert_eq!(
        reader.push_chunk(&vec![4, 5]),
        Err(FetchError::BodyTooLarge { limit: 4 })
    );
    assert!(reader.push_chunk(&vec![4]).is_ok());
    assert_eq!(reader.into_bytes(), vec![1, 2, 3, 4]);
}

#[test]
fn body_rendering() {
    let html = b"<html><body><style>p{}</style><h1>Hi</h1></body></html>".to_vec();
    let md = body_to_markdown(html).unwrap();
    assert!(md.contains("Hi"));
    assert!(!md.contains("<h1>"));
    assert!(!md.contains("style"));

    let bad = vec![0xffu8, 0xfe, 0x00, 0x80];
    assert_eq!(body_to_markdown(bad), Err(FetchError::InvalidEncoding));
}

#[test]
fn sanitizer_handles_attributes_and_case() {
    let html = "a<STYLE type=\"text/css\">x</style>b<ScRiPt src=\"x.js\">y</SCRIPT>c";
    assert_eq!(strip_styles_and_scripts(html), "abc");
    // An unclosed block is left as it stands.
    let open_only = "a<style>rest";
    assert_eq!(strip_styles_and_scripts(open_only), "a<style>rest");
    // Nothing to strip.
    assert_eq!(strip_styles_and_scripts("plain"), "plain");
}

#[test]
fn browse_config_merge() {
    let cfg = BrowseConfig::from_sources(None);
    assert!(!cfg.follow_redirects);
    assert_eq!(cfg.max_redirects, 10);
    assert_eq!(cfg.max_bytes, 2_000_000);
    assert_eq!(cfg.timeout_secs, 20);
    assert!(cfg.allowed_hosts.is_none());
    assert!(!cfg.allow_private);

    let file = BrowseFileConfig {
        follow_redirects: Some(true),
        max_redirects: Some(3),
        max_bytes: Some(1000),
        timeout_secs: Some(5),
        user_agent: Some("  ".to_string()),
        allowed_hosts: Some(vec!["  EXample.com ".to_string(), "".to_string()]),
        allow_private: Some(true),
    };
    let cfg = BrowseConfig::from_sources(Some(file));
    assert!(cfg.follow_redirects);
    assert_eq!(cfg.max_redirects, 3);
    assert_eq!(cfg.max_bytes, 1000);
    assert_eq!(cfg.timeout_secs, 5);
    // A user agent of pure whitespace is ignored.
    assert_eq!(cfg.user_agent, "searxng-mcp/0.1.0");
    assert_eq!(cfg.allowed_hosts, Some(vec!["example.com".to_string()]));
    assert!(cfg.allow_private);

    // An allowlist that cleans to nothing is no allowlist.
    let file = BrowseFileConfig {
        allowed_hosts: Some(vec!["  ".to_string()]),
        ..Default::default()
    };
    let cfg = BrowseConfig::from_sources(Some(file));
    assert!(cfg.allowed_hosts.is_none());
}
