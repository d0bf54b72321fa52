use true_track_proxy::config::{Config, ProxyConfig};
use true_track_proxy::lb::{lb_request_filter, LBContext};
use true_track_proxy::request::{upstream_request_headers, RequestDecision, RequestInfo};
use true_track_proxy::response::{HeaderField, ResponsePlan};
use true_track_proxy::router::{upstream_host, Router, RouterContext, RouterService, MAX_BODY_SIZE};

fn req(host: Option<&str>, scheme: Option<&str>, pq: Option<&str>) -> RequestInfo {
    RequestInfo {
        host: host.map(String::from),
        scheme: scheme.map(String::from),
        path_and_query: pq.map(String::from),
    }
}

fn router(allow: &[&str], routes: &[&str]) -> Router<usize> {
    Router {
        allow_hosts: allow.iter().map(|s| s.to_string()).collect(),
        routes: routes
            .iter()
            .enumerate()
            .map(|(i, s)| RouterService { host_name: s.to_string(), service: i })
            .collect(),
    }
}

fn respond(d: RequestDecision) -> ResponsePlan {
    match d {
        RequestDecision::Respond(p) => p,
        RequestDecision::Forward => panic!("forwarded"),
    }
}

fn proxy(name: &str, cert: &str, key: &str) -> ProxyConfig {
    ProxyConfig {
        name: name.to_string(),
        upstreams: vec!["127.0.0.1:8080".to_string()],
        tls_cert: cert.to_string(),
        tls_key: key.to_string(),
        is_http_healthcheck: true,
        health_check_host: name.to_string(),
        health_check_path: "/health".to_string(),
    }
}

#[test]
fn missing_host_is_bad_gateway_without_body() {
    let r = router(&["example.com"], &[]);
    let plan = respond(r.request_filter(&req(None, Some("https"), Some("/")), Some(443)));
    assert_eq!(plan.status, 502);
    assert_eq!(plan.headers, vec![(HeaderField::ContentLength, b"26".to_vec())]);
    assert_eq!(plan.body, None);
}

#[test]
fn plain_http_is_redirected_to_https() {
    let r = router(&["example.com"], &[]);
    let plan = respond(r.request_filter(&req(Some("a.example.com"), Some("http"), Some("/p?q=1")), Some(80)));
    assert_eq!(plan.status, 302);
    assert_eq!(
        plan.headers,
        vec![
            (HeaderField::Location, b"https://a.example.com/p?q=1".to_vec()),
            (HeaderField::ContentLength, b"0".to_vec()),
            (HeaderField::RedirectFrom, b"http".to_vec()),
        ]
    );
}

#[test]
fn missing_scheme_and_path_redirect_to_root() {
    let r = router(&[], &[]);
    let plan = respond(r.request_filter(&req(Some("other.org"), None, None), Some(443)));
    assert_eq!(plan.headers[0], (HeaderField::Location, b"https://other.org/".to_vec()));
    assert_eq!(plan.headers[2], (HeaderField::RedirectFrom, b"http".to_vec()));
}

#[test]
fn plain_http_on_tls_port_is_still_redirected() {
    let r = router(&["example.com"], &[]);
    let plan = respond(r.request_filter(&req(Some("example.com"), Some("http"), Some("/")), Some(443)));
    assert_eq!(plan.status, 302);
}

#[test]
fn disallowed_host_is_forbidden() {
    let r = router(&["example.com"], &[]);
    let plan = respond(r.request_filter(&req(Some("evil.org"), Some("https"), Some("/")), Some(443)));
    assert_eq!(plan.status, 403);
    assert_eq!(plan.headers, vec![(HeaderField::ContentLength, b"31".to_vec())]);
    assert_eq!(plan.body, Some(br#"{"message":"Host is not allow"}"#.to_vec()));
}

#[test]
fn allowed_host_over_https_is_forwarded() {
    let r = router(&["other.net", "example.com"], &[]);
    let d = r.request_filter(&req(Some("api.example.com"), Some("https"), Some("/")), Some(443));
    assert!(matches!(d, RequestDecision::Forward));
    // a suffix match, not a domain match
    let d = r.request_filter(&req(Some("badexample.com"), Some("https"), None), Some(8443));
    assert!(matches!(d, RequestDecision::Forward));
}

#[test]
fn balancer_forwards_any_https_host() {
    let d = lb_request_filter(&req(Some("evil.org"), Some("https"), Some("/")), Some(443));
    assert!(matches!(d, RequestDecision::Forward));
    let plan = respond(lb_request_filter(&req(Some("evil.org"), Some("http"), Some("/a")), Some(443)));
    assert_eq!(plan.headers[0], (HeaderField::Location, b"https://evil.org/a".to_vec()));
    let plan = respond(lb_request_filter(&req(None, None, None), None));
    assert_eq!(plan.status, 502);
}

#[test]
fn first_matching_route_serves() {
    let r = router(&[], &["example.com", "api.example.com", "other.org"]);
    assert_eq!(r.find_route("api.example.com"), Some(0));
    assert_eq!(r.find_route("x.other.org"), Some(2));
    assert_eq!(r.find_route("example.net"), None);
    assert_eq!(r.upstream_peer(&req(Some("www.other.org"), None, None)), 2);
    assert_eq!(r.find_route(""), None);
    let catch_all = router(&[], &["", "example.com"]);
    assert_eq!(catch_all.upstream_peer(&req(None, None, None)), 0);
    assert_eq!(upstream_host(&req(Some("h.io"), None, None)), "h.io");
    assert_eq!(upstream_host(&req(None, None, None)), "");
}

#[test]
fn upstream_headers_name_client_scheme_and_host() {
    let h = upstream_request_headers("10.0.0.1:5000", &req(Some("a.example.com"), Some("https"), None));
    assert_eq!(
        h,
        vec![
            (HeaderField::XForwardedFor, b"10.0.0.1:5000".to_vec()),
            (HeaderField::XForwardedProto, b"https".to_vec()),
            (HeaderField::XForwardedHost, b"a.example.com".to_vec()),
            (HeaderField::Host, b"a.example.com".to_vec()),
        ]
    );
    let h = upstream_request_headers("[::1]:1", &req(None, None, None));
    assert_eq!(h[1], (HeaderField::XForwardedProto, b"http".to_vec()));
    assert_eq!(h[2], (HeaderField::XForwardedHost, b"unknown-host".to_vec()));
    assert_eq!(h[3], (HeaderField::Host, b"unknown-host".to_vec()));
}

#[test]
fn body_over_limit_is_refused_and_stays_refused() {
    let r = router(&[], &[]);
    let mut ctx: RouterContext = r.new_ctx();
    assert_eq!(ctx.body_size(), 0);
    assert!(ctx.request_body_filter(Some(MAX_BODY_SIZE - 10)).is_none());
    assert!(ctx.request_body_filter(None).is_none());
    assert!(ctx.request_body_filter(Some(10)).is_none());
    assert_eq!(ctx.body_size(), 120 * 1024 * 1024);
    let plan = ctx.request_body_filter(Some(1)).expect("over the limit");
    assert_eq!(plan.status, 413);
    assert_eq!(plan.headers, vec![(HeaderField::ContentLength, b"44".to_vec())]);
    assert_eq!(plan.body, Some(br#"{"message":"payload too large (max: 120mb)"}"#.to_vec()));
    assert!(ctx.request_body_filter(None).is_some());
    assert!(ctx.request_body_filter(Some(0)).is_some());
}

#[test]
fn balancer_body_limit() {
    let mut ctx = LBContext::new();
    assert!(ctx.request_body_filter(Some(MAX_BODY_SIZE + 1)).is_some());
    assert_eq!(ctx.body_size(), MAX_BODY_SIZE + 1);
}

#[test]
fn router_from_config_keeps_order() {
    let cfg = Config {
        proxies: vec![proxy("a.com", "a.crt", "a.key"), proxy("b.com", "b.crt", "b.key")],
        allow_hosts: vec!["a.com".to_string(), "b.com".to_string()],
        cf_root_path: "ca.pem".to_string(),
        log_folder: "./logs".to_string(),
    };
    let r = Router::from_config(&cfg, vec!["svc-a", "svc-b"]);
    assert_eq!(r.allow_hosts, cfg.allow_hosts);
    assert_eq!(r.routes.len(), 2);
    assert_eq!(r.routes[0].host_name, "a.com");
    assert_eq!(r.routes[0].service, "svc-a");
    assert_eq!(r.routes[1].host_name, "b.com");
    assert_eq!(r.routes[1].service, "svc-b");
    let certs = cfg.certificate_configs();
    assert_eq!(certs.len(), 2);
    assert_eq!(certs[1].cert_path, "b.crt");
    assert_eq!(certs[1].key_path, "b.key");
}

#[test]
fn router_allowing_the_empty_name_decides_as_balancer() {
    let r = router(&[""], &[]);
    let cases = [
        req(Some("any.org"), Some("https"), Some("/")),
        req(Some("any.org"), Some("http"), Some("/x")),
        req(None, Some("https"), None),
        req(Some("h"), None, None),
    ];
    for c in cases.iter() {
        let a = format!("{:?}", r.request_filter(c, Some(443)));
        let b = format!("{:?}", lb_request_filter(c, Some(443)));
        assert_eq!(a, b);
    }
}
