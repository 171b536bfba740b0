use std::sync::Arc;
use vane::config::AppConfig;
use vane::models::{DomainConfig, TlsConfig};
use vane::tls::PerDomainCertResolver;

fn resolver() -> PerDomainCertResolver {
    let mut config = AppConfig::new(80, 443);
    let mut secure = DomainConfig::plain();
    secure.https = true;
    secure.tls = Some(TlsConfig { cert: "~/a.pem".to_string(), key: "~/a.key".to_string() });
    config.insert_domain("a.test".to_string(), secure).unwrap();
    let mut plain = DomainConfig::plain();
    plain.tls = Some(TlsConfig { cert: "~/b.pem".to_string(), key: "~/b.key".to_string() });
    config.insert_domain("b.test".to_string(), plain).unwrap();
    PerDomainCertResolver::new(Arc::new(config))
}

#[test]
fn configured_name_gets_its_certificate() {
    let resolver = resolver();
    let tls = resolver.resolve(Some("a.test")).unwrap();
    assert_eq!(tls.cert, "~/a.pem");
    assert_eq!(tls.key, "~/a.key");
}

#[test]
fn unconfigured_name_gets_no_certificate() {
    let resolver = resolver();
    assert!(resolver.resolve(Some("c.test")).is_none());
    assert!(resolver.resolve(Some("A.TEST")).is_none());
    assert!(resolver.resolve(Some("")).is_none());
}

#[test]
fn handshake_without_a_name_gets_no_certificate() {
    assert!(resolver().resolve(None).is_none());
}

#[test]
fn domain_that_does_not_serve_tls_gets_no_certificate() {
    assert!(resolver().resolve(Some("b.test")).is_none());
}
