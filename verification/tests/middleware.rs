use vane::message::{apply_edits, Header, HeaderEdit, RequestHead, ResponseBody};
use vane::middleware::{
    allowed_methods_for, alt_svc_handler, cors_handler, cors_response_edits, hsts_handler,
    http_request_handler, inject_host_header, inject_response_headers_handler, method_allowed,
    method_filter_handler, methods_cover, CorsDecision, HttpModeAction,
};
use vane::models::{CorsConfig, DomainConfig, HttpOptions, MethodsConfig, OriginRule, TlsConfig};

fn header(name: &str, value: &str) -> Header {
    Header { name: name.to_string(), value: Some(value.to_string()) }
}

fn request(method: &str, headers: Vec<Header>) -> RequestHead {
    RequestHead {
        method: method.to_string(),
        path: "/x".to_string(),
        path_and_query: Some("/x".to_string()),
        authority: None,
        headers,
    }
}

fn cors_domain(rules: &[(&str, &str)]) -> DomainConfig {
    let mut domain = DomainConfig::plain();
    domain.cors = Some(CorsConfig {
        origins: rules
            .iter()
            .map(|(origin, methods)| OriginRule {
                origin: origin.to_string(),
                methods: methods.to_string(),
            })
            .collect(),
    });
    domain
}

fn pairs(headers: &[Header]) -> Vec<(String, String)> {
    headers.iter().map(|h| (h.name.clone(), h.value.clone().unwrap_or_default())).collect()
}

fn pair(name: &str, value: &str) -> (String, String) {
    (name.to_string(), value.to_string())
}

#[test]
fn allow_list_lets_listed_methods_through() {
    assert!(method_allowed("GET, POST", "GET"));
    assert!(method_allowed("GET, POST", "POST"));
    assert!(!method_allowed("GET, POST", "DELETE"));
    assert!(!method_allowed("GET, POST", "OPTIONS"));
}

#[test]
fn allow_list_entries_are_trimmed_and_upper_cased() {
    assert!(method_allowed(" get ,\tpost\n", "GET"));
    assert!(method_allowed("  get, post  ", "POST"));
    assert!(!method_allowed("get", "get"));
    assert!(method_allowed("Purge", "PURGE"));
}

#[test]
fn star_allows_every_method() {
    assert!(method_allowed("*", "DELETE"));
    assert!(method_allowed("  *  ", "BREW"));
    assert!(!method_allowed("*, GET", "DELETE"));
    assert!(method_allowed("*, GET", "*"));
}

#[test]
fn entries_that_are_no_method_allow_nothing() {
    assert!(!method_allowed("", "GET"));
    assert!(!method_allowed(",,", ""));
    assert!(!method_allowed("G E T", "G E T"));
    assert!(!method_allowed("GET/POST", "GET/POST"));
    assert!(!method_allowed("GET;", "GET;"));
    assert!(method_allowed("GET!", "GET!"));
}

#[test]
fn method_filter_of_a_domain() {
    let mut domain = DomainConfig::plain();
    domain.methods = Some(MethodsConfig { allow: "GET, POST".to_string() });
    assert!(method_filter_handler(Some(&domain), "DELETE"));
    assert!(!method_filter_handler(Some(&domain), "GET"));
    assert!(method_filter_handler(Some(&domain), "OPTIONS"));
    assert!(!method_filter_handler(Some(&DomainConfig::plain()), "DELETE"));
    assert!(!method_filter_handler(None, "DELETE"));
}

#[test]
fn origin_rules_prefer_the_exact_origin() {
    let cors = cors_domain(&[("*", "GET"), ("https://app.example", "POST")]).cors.unwrap();
    assert_eq!(allowed_methods_for(&cors, "https://app.example"), Some("POST"));
    assert_eq!(allowed_methods_for(&cors, "https://other.example"), Some("GET"));
    let cors = cors_domain(&[("https://app.example", "POST")]).cors.unwrap();
    assert_eq!(allowed_methods_for(&cors, "https://other.example"), None);
    assert_eq!(allowed_methods_for(&cors, "HTTPS://APP.EXAMPLE"), None);
}

#[test]
fn methods_of_an_origin_cover_requests() {
    assert!(methods_cover("GET", "GET"));
    assert!(methods_cover("GET, post", "POST"));
    assert!(methods_cover("GET", "get"));
    assert!(!methods_cover("GET", "DELETE"));
    assert!(methods_cover("*", "DELETE"));
    assert!(methods_cover(" * ", "DELETE"));
    assert!(methods_cover("", "DELETE"));
    assert!(methods_cover("   ", "DELETE"));
    assert!(!methods_cover("GET,", "DELETE"));
    assert!(methods_cover("GET,", ""));
}

#[test]
fn preflight_for_allowed_origin_and_method_is_granted() {
    let domain = cors_domain(&[("https://app.example", "GET")]);
    let req = request(
        "OPTIONS",
        vec![
            header("origin", "https://app.example"),
            header("access-control-request-method", "GET"),
        ],
    );
    match cors_handler(Some(&domain), &req) {
        CorsDecision::Preflight(response) => {
            assert_eq!(response.status, 200);
            assert!(matches!(response.body, ResponseBody::Empty));
            assert_eq!(
                pairs(&response.headers),
                vec![
                    pair("access-control-allow-origin", "https://app.example"),
                    pair("access-control-allow-headers", "*"),
                    pair("access-control-allow-methods", "GET"),
                    pair(
                        "vary",
                        "Origin, Access-Control-Request-Method, Access-Control-Request-Headers"
                    ),
                ]
            );
        }
        other => panic!("unexpected: {:?}", other),
    }
}

#[test]
fn preflight_for_other_method_is_answered_empty() {
    let domain = cors_domain(&[("https://app.example", "GET")]);
    let req = request(
        "OPTIONS",
        vec![
            header("Origin", "https://app.example"),
            header("Access-Control-Request-Method", "DELETE"),
        ],
    );
    match cors_handler(Some(&domain), &req) {
        CorsDecision::Preflight(response) => {
            assert_eq!(response.status, 200);
            assert!(response.headers.is_empty());
            assert!(matches!(response.body, ResponseBody::Empty));
        }
        other => panic!("unexpected: {:?}", other),
    }
}

#[test]
fn preflight_for_unknown_origin_is_answered_empty() {
    let domain = cors_domain(&[("https://app.example", "GET")]);
    let req = request(
        "OPTIONS",
        vec![
            header("origin", "https://evil.example"),
            header("access-control-request-method", "GET"),
        ],
    );
    match cors_handler(Some(&domain), &req) {
        CorsDecision::Preflight(response) => assert!(response.headers.is_empty()),
        other => panic!("unexpected: {:?}", other),
    }
}

#[test]
fn preflight_with_empty_methods_allows_all() {
    let domain = cors_domain(&[("*", "")]);
    let req = request(
        "OPTIONS",
        vec![header("origin", "https://any.example"), header("access-control-request-method", "PUT")],
    );
    match cors_handler(Some(&domain), &req) {
        CorsDecision::Preflight(response) => {
            assert_eq!(
                pairs(&response.headers)[..3],
                [
                    pair("access-control-allow-origin", "https://any.example"),
                    pair("access-control-allow-headers", "*"),
                    pair("access-control-allow-methods", "*"),
                ]
            );
        }
        other => panic!("unexpected: {:?}", other),
    }
}

#[test]
fn preflight_whose_requested_method_is_no_text_asks_for_nothing() {
    let domain = cors_domain(&[("https://app.example", "GET")]);
    let req = request(
        "OPTIONS",
        vec![
            header("origin", "https://app.example"),
            Header { name: "access-control-request-method".to_string(), value: None },
        ],
    );
    match cors_handler(Some(&domain), &req) {
        CorsDecision::Preflight(response) => assert!(response.headers.is_empty()),
        other => panic!("unexpected: {:?}", other),
    }
}

#[test]
fn options_without_requested_method_is_no_preflight() {
    let domain = cors_domain(&[("https://app.example", "GET")]);
    let req = request("OPTIONS", vec![header("origin", "https://app.example")]);
    match cors_handler(Some(&domain), &req) {
        CorsDecision::Forward(origin) => assert_eq!(origin.as_deref(), Some("https://app.example")),
        other => panic!("unexpected: {:?}", other),
    }
}

#[test]
fn actual_request_gets_its_origin_stamped() {
    let domain = cors_domain(&[("https://app.example", "GET")]);
    let req = request("DELETE", vec![header("origin", "https://app.example")]);
    match cors_handler(Some(&domain), &req) {
        CorsDecision::Forward(origin) => assert_eq!(origin.as_deref(), Some("https://app.example")),
        other => panic!("unexpected: {:?}", other),
    }
    let req = request("GET", vec![header("origin", "https://evil.example")]);
    assert!(matches!(cors_handler(Some(&domain), &req), CorsDecision::Forward(None)));
}

#[test]
fn requests_outside_the_cross_origin_rules_pass_untouched() {
    let domain = cors_domain(&[("*", "*")]);
    let no_origin = request("GET", vec![]);
    assert!(matches!(cors_handler(Some(&domain), &no_origin), CorsDecision::Forward(None)));
    let not_text = request("GET", vec![Header { name: "origin".to_string(), value: None }]);
    assert!(matches!(cors_handler(Some(&domain), &not_text), CorsDecision::Forward(None)));
    let with_origin = request("GET", vec![header("origin", "https://app.example")]);
    assert!(matches!(
        cors_handler(Some(&DomainConfig::plain()), &with_origin),
        CorsDecision::Forward(None)
    ));
    assert!(matches!(cors_handler(None, &with_origin), CorsDecision::Forward(None)));
}

#[test]
fn stamp_replaces_origin_and_adds_to_vary() {
    let edits = cors_response_edits(Some("https://app.example"));
    let mut headers = vec![
        header("Access-Control-Allow-Origin", "https://backend.example"),
        header("vary", "Accept-Encoding"),
        header("content-type", "text/plain"),
    ];
    apply_edits(&mut headers, &edits);
    assert_eq!(
        pairs(&headers),
        vec![
            pair("vary", "Accept-Encoding"),
            pair("content-type", "text/plain"),
            pair("access-control-allow-origin", "https://app.example"),
            pair("vary", "Origin"),
        ]
    );
    assert!(cors_response_edits(None).is_empty());
}

#[test]
fn plain_http_policy() {
    let mut domain = DomainConfig::plain();
    assert!(matches!(
        http_request_handler(Some(&domain), "a.test", Some("/x?y=1")),
        HttpModeAction::Forward
    ));
    domain.http_options = HttpOptions::Reject;
    assert!(matches!(
        http_request_handler(Some(&domain), "a.test", Some("/x?y=1")),
        HttpModeAction::Reject
    ));
    domain.http_options = HttpOptions::Upgrade;
    match http_request_handler(Some(&domain), "a.test", Some("/x?y=1")) {
        HttpModeAction::Redirect(location) => assert_eq!(location, "https://a.test/x?y=1"),
        other => panic!("unexpected: {:?}", other),
    }
    match http_request_handler(Some(&domain), "a.test:8080", None) {
        HttpModeAction::Redirect(location) => assert_eq!(location, "https://a.test:8080/"),
        other => panic!("unexpected: {:?}", other),
    }
    assert!(matches!(http_request_handler(None, "b.test", Some("/")), HttpModeAction::Forward));
}

#[test]
fn strict_transport_header_needs_https_and_hsts() {
    let mut domain = DomainConfig::plain();
    domain.hsts = true;
    assert!(hsts_handler(Some(&domain)).is_none());
    domain.https = true;
    domain.tls = Some(TlsConfig { cert: "c".to_string(), key: "k".to_string() });
    match hsts_handler(Some(&domain)) {
        Some(HeaderEdit::Insert(name, value)) => {
            assert_eq!(name, "strict-transport-security");
            assert_eq!(value, "max-age=31536000; includeSubDomains");
        }
        other => panic!("unexpected: {:?}", other),
    }
    domain.hsts = false;
    assert!(hsts_handler(Some(&domain)).is_none());
    assert!(hsts_handler(None).is_none());
}

#[test]
fn alternative_service_names_the_https_port() {
    let mut domain = DomainConfig::plain();
    assert!(alt_svc_handler(Some(&domain), 443).is_none());
    domain.http3 = true;
    match alt_svc_handler(Some(&domain), 443) {
        Some(HeaderEdit::Insert(name, value)) => {
            assert_eq!(name, "alt-svc");
            assert_eq!(value, "h3=\":443\"; ma=86400");
        }
        other => panic!("unexpected: {:?}", other),
    }
    match alt_svc_handler(Some(&domain), 8443) {
        Some(HeaderEdit::Insert(_, value)) => assert_eq!(value, "h3=\":8443\"; ma=86400"),
        other => panic!("unexpected: {:?}", other),
    }
    assert!(alt_svc_handler(None, 443).is_none());
}

#[test]
fn host_is_injected_from_the_authority_when_missing() {
    let mut req = request("GET", vec![]);
    req.authority = Some("a.test:8443".to_string());
    match inject_host_header(&req) {
        Some(HeaderEdit::Insert(name, value)) => {
            assert_eq!(name, "host");
            assert_eq!(value, "a.test:8443");
        }
        other => panic!("unexpected: {:?}", other),
    }
    req.headers.push(header("Host", "b.test"));
    assert!(inject_host_header(&req).is_none());
    let bare = request("GET", vec![]);
    assert!(inject_host_header(&bare).is_none());
    let mut not_text = request("GET", vec![Header { name: "host".to_string(), value: None }]);
    not_text.authority = Some("a.test".to_string());
    assert!(inject_host_header(&not_text).is_none());
}

#[test]
fn proxy_names_itself_on_responses() {
    let edits = inject_response_headers_handler(Some("edge-1"), "0.3.0");
    let mut headers = vec![header("server", "nginx"), header("x", "y")];
    apply_edits(&mut headers, &edits);
    assert_eq!(
        pairs(&headers),
        vec![pair("x", "y"), pair("server", "edge-1"), pair("proxy", "vane/0.3.0")]
    );
    let edits = inject_response_headers_handler(None, "1.0");
    assert_eq!(edits.len(), 1);
}

#[test]
fn names_that_cannot_be_header_values_are_left_out() {
    let edits = inject_response_headers_handler(Some("bad\nname"), "1.0");
    assert_eq!(edits.len(), 1);
    assert!(matches!(&edits[0], HeaderEdit::Insert(name, _) if name == "proxy"));
    let edits = inject_response_headers_handler(Some("tab\tok \u{e9}"), "1\u{7f}");
    assert_eq!(edits.len(), 1);
    assert!(matches!(&edits[0], HeaderEdit::Insert(name, _) if name == "server"));
}

#[test]
fn origins_keep_one_rule_each() {
    let mut cors = CorsConfig::default();
    cors.insert_origin("https://app.example".to_string(), "GET".to_string());
    cors.insert_origin("*".to_string(), "HEAD".to_string());
    cors.insert_origin("https://app.example".to_string(), "POST".to_string());
    assert_eq!(cors.origins.len(), 2);
    assert_eq!(cors.position("https://app.example"), Some(0));
    assert_eq!(cors.position("https://other.example"), None);
    assert_eq!(allowed_methods_for(&cors, "https://app.example"), Some("POST"));
    assert_eq!(allowed_methods_for(&cors, "https://other.example"), Some("HEAD"));
}
