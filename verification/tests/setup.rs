use vane::acme_client::{
    decode_resource, endpoint, fetch_resource, read_reply, ApiResponse, ApiResponseData,
    AttemptOutcome, FetchError, FetchStep, Resource, RETRY_ATTEMPTS, RETRY_DELAY_SECONDS,
};
use vane::config::AppConfig;
use vane::limiter::{SHIELD_MEMORY_LIMIT, SHIELD_REQUESTS_PER_SECOND};
use vane::models::{DomainConfig, TlsConfig};
use vane::setup::{
    after_renewal, first_run_certificate, get_cert_paths_for_host, hosts_to_refresh,
    should_refresh, CertificateSource, FollowUp, RenewalResult, EXIT_CERTIFICATE_FAILURE,
    RENEWAL_AGE_SECS, RENEWAL_CHECK_SECS,
};

fn reply(status: &str, certificate: Option<&str>, key: Option<&str>) -> ApiResponse {
    ApiResponse {
        status: status.to_string(),
        data: Some(ApiResponseData {
            certificate_base64: certificate.map(|s| s.to_string()),
            key_base64: key.map(|s| s.to_string()),
        }),
    }
}

#[test]
fn certificate_files_are_named_by_host() {
    assert_eq!(
        get_cert_paths_for_host("example.com"),
        ("example.com.pem".to_string(), "example.com.key".to_string())
    );
}

#[test]
fn renewal_is_due_after_a_day_or_without_record() {
    assert!(should_refresh(None));
    assert!(!should_refresh(Some(0)));
    assert!(!should_refresh(Some(86400)));
    assert!(should_refresh(Some(86401)));
    assert_eq!(RENEWAL_AGE_SECS, 86400);
    assert_eq!(RENEWAL_CHECK_SECS, 3600);
    assert_eq!(EXIT_CERTIFICATE_FAILURE, 75);
}

#[test]
fn follow_up_of_a_renewal() {
    assert_eq!(
        after_renewal(RenewalResult::Renewed),
        FollowUp { write_timestamp: true, restart: true }
    );
    assert_eq!(
        after_renewal(RenewalResult::NothingDue),
        FollowUp { write_timestamp: true, restart: false }
    );
    assert_eq!(
        after_renewal(RenewalResult::Failed),
        FollowUp { write_timestamp: false, restart: false }
    );
}

#[test]
fn only_tls_domains_are_renewed() {
    let mut config = AppConfig::new(80, 443);
    let mut secure = DomainConfig::plain();
    secure.https = true;
    secure.tls = Some(TlsConfig { cert: "c".to_string(), key: "k".to_string() });
    let mut with_files_only = DomainConfig::plain();
    with_files_only.tls = Some(TlsConfig { cert: "c".to_string(), key: "k".to_string() });
    config.insert_domain("a.test".to_string(), secure.clone()).unwrap();
    config.insert_domain("b.test".to_string(), with_files_only).unwrap();
    config.insert_domain("c.test".to_string(), DomainConfig::plain()).unwrap();
    config.insert_domain("d.test".to_string(), secure).unwrap();
    assert_eq!(hosts_to_refresh(&config), vec!["a.test".to_string(), "d.test".to_string()]);
    assert!(hosts_to_refresh(&AppConfig::new(80, 443)).is_empty());
}

#[test]
fn first_run_certificate_source() {
    assert!(matches!(
        first_run_certificate(true, true, Some("http://acme".to_string())),
        CertificateSource::OnDisk
    ));
    assert!(matches!(
        first_run_certificate(true, false, Some("http://acme".to_string())),
        CertificateSource::Fetch(server) if server == "http://acme"
    ));
    assert!(matches!(first_run_certificate(false, true, None), CertificateSource::SelfSigned));
    assert!(matches!(first_run_certificate(false, false, None), CertificateSource::SelfSigned));
}

#[test]
fn shield_lets_thirty_per_second_through() {
    assert_eq!(SHIELD_REQUESTS_PER_SECOND, 30);
    assert_eq!(SHIELD_MEMORY_LIMIT, 64 * 1024 * 1024);
}

#[test]
fn endpoints_of_the_certificate_server() {
    assert_eq!(
        endpoint("http://acme:8080", "a.test", Resource::Certificate),
        "http://acme:8080/v1/certificate/a.test"
    );
    assert_eq!(
        endpoint("http://acme:8080", "a.test", Resource::Key),
        "http://acme:8080/v1/certificate/a.test/key"
    );
}

#[test]
fn resources_are_decoded_from_base64() {
    assert_eq!(decode_resource("aGVsbG8="), Ok("hello".to_string()));
    assert_eq!(decode_resource(""), Ok(String::new()));
    assert_eq!(decode_resource("aGVsbG8"), Err(FetchError::BadEncoding));
    assert_eq!(decode_resource("not base64!"), Err(FetchError::BadEncoding));
    assert_eq!(decode_resource("/w=="), Err(FetchError::NotText));
    assert_eq!(decode_resource("w6k="), Ok("\u{e9}".to_string()));
}

#[test]
fn replies_yield_the_resource_asked_for() {
    let both = reply("success", Some("Y2VydA=="), Some("a2V5"));
    assert_eq!(read_reply(&both, Resource::Certificate), Ok("cert".to_string()));
    assert_eq!(read_reply(&both, Resource::Key), Ok("key".to_string()));
    let shouting = reply("SUCCESS", Some("Y2VydA=="), None);
    assert_eq!(read_reply(&shouting, Resource::Certificate), Ok("cert".to_string()));
    assert_eq!(read_reply(&shouting, Resource::Key), Err(FetchError::InvalidData));
    let failed = reply("error", Some("Y2VydA=="), None);
    assert_eq!(read_reply(&failed, Resource::Certificate), Err(FetchError::InvalidData));
    let bare = ApiResponse { status: "success".to_string(), data: None };
    assert_eq!(read_reply(&bare, Resource::Certificate), Err(FetchError::InvalidData));
    let garbled = reply("success", Some("###"), None);
    assert_eq!(read_reply(&garbled, Resource::Certificate), Err(FetchError::BadEncoding));
}

#[test]
fn fetch_retries_up_to_the_fifth_attempt() {
    assert_eq!(RETRY_ATTEMPTS, 5);
    assert_eq!(RETRY_DELAY_SECONDS, 5);
    for attempt in 1..5u32 {
        assert!(matches!(
            fetch_resource(attempt, &AttemptOutcome::Unreachable, Resource::Key),
            FetchStep::Retry(next) if next == attempt + 1
        ));
        assert!(matches!(
            fetch_resource(attempt, &AttemptOutcome::Answer(503, None), Resource::Key),
            FetchStep::Retry(next) if next == attempt + 1
        ));
    }
    assert!(matches!(
        fetch_resource(5, &AttemptOutcome::Unreachable, Resource::Key),
        FetchStep::Fail(FetchError::Exhausted)
    ));
    assert!(matches!(
        fetch_resource(5, &AttemptOutcome::Answer(500, None), Resource::Key),
        FetchStep::Fail(FetchError::Exhausted)
    ));
    assert!(matches!(
        fetch_resource(u32::MAX, &AttemptOutcome::Unreachable, Resource::Key),
        FetchStep::Fail(FetchError::Exhausted)
    ));
}

#[test]
fn fetch_ends_on_success_and_on_not_found() {
    let good = AttemptOutcome::Answer(200, Some(reply("success", Some("Y2VydA=="), None)));
    assert!(matches!(
        fetch_resource(1, &good, Resource::Certificate),
        FetchStep::Done(text) if text == "cert"
    ));
    assert!(matches!(
        fetch_resource(1, &good, Resource::Key),
        FetchStep::Fail(FetchError::InvalidData)
    ));
    assert!(matches!(
        fetch_resource(1, &AttemptOutcome::Answer(204, None), Resource::Key),
        FetchStep::Fail(FetchError::UnreadableReply)
    ));
    assert!(matches!(
        fetch_resource(1, &AttemptOutcome::Answer(404, None), Resource::Key),
        FetchStep::Fail(FetchError::NotFound)
    ));
    assert!(matches!(
        fetch_resource(1, &AttemptOutcome::Answer(300, None), Resource::Key),
        FetchStep::Retry(2)
    ));
}
