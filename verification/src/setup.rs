//! Decisions around certificates on disk: where they are kept, when they
//! are renewed, and how the first run gets one.

use crate::config::{AppConfig, DomainEntry};
use crate::text::joined;
use vstd::prelude::*;

verus! {

/// Seconds after which the certificates are renewed again: one day.
pub const RENEWAL_AGE_SECS: u64 = 86400;

/// Seconds between two looks at the age of the certificates: one hour.
pub const RENEWAL_CHECK_SECS: u64 = 3600;

/// The exit code of a first run that could not get its certificate.
pub const EXIT_CERTIFICATE_FAILURE: u8 = 75;

/// The host that the first run sets up as an example.
pub open spec fn example_host() -> Seq<char> {
    "example.com"@
}

/// Names of the files, in the certificate directory, that hold the
/// certificate and the private key of `host`.
pub fn get_cert_paths_for_host(host: &str) -> (r: (String, String))
    ensures
        r.0@ == host@ + ".pem"@,
        r.1@ == host@ + ".key"@,
{
    (joined(host, ".pem"), joined(host, ".key"))
}

/// Whether the certificates are due: the time of the last renewal is not on
/// record, or lies more than a day back.
pub fn should_refresh(age_secs: Option<u64>) -> (due: bool)
    ensures
        due == match age_secs {
            None => true,
            Some(age) => age > RENEWAL_AGE_SECS,
        },
{
    match age_secs {
        None => true,
        Some(age) => age > RENEWAL_AGE_SECS,
    }
}

/// How a renewal ended.
#[derive(Debug, Clone, Copy, PartialEq, Eq, Structural)]
pub enum RenewalResult {
    /// Certificates were fetched and put in place.
    Renewed,
    /// No domain needed a certificate.
    NothingDue,
    /// The renewal failed.
    Failed,
}

/// What follows a renewal.
#[derive(Debug, Clone, Copy, PartialEq, Eq, Structural)]
pub struct FollowUp {
    /// Put the time of this renewal on record.
    pub write_timestamp: bool,
    /// Stop, so that the process starts again with the new certificates.
    pub restart: bool,
}

/// What follows a renewal: the time goes on record unless the renewal
/// failed, so that a failed one is tried again at the next look; the
/// process stops where certificates were put in place.
pub fn after_renewal(result: RenewalResult) -> (r: FollowUp)
    ensures
        r.write_timestamp == (result != RenewalResult::Failed),
        r.restart == (result == RenewalResult::Renewed),
{
    match result {
        RenewalResult::Renewed => FollowUp { write_timestamp: true, restart: true },
        RenewalResult::NothingDue => FollowUp { write_timestamp: true, restart: false },
        RenewalResult::Failed => FollowUp { write_timestamp: false, restart: false },
    }
}

/// Whether a domain takes part in renewals: it serves TLS and names its
/// certificate and key.
pub open spec fn is_renewed(entry: DomainEntry) -> bool {
    entry.config.https && entry.config.tls is Some
}

/// The hosts whose certificates a renewal fetches, in the order of the domains.
pub open spec fn renewed_hosts(entries: Seq<DomainEntry>) -> Seq<Seq<char>>
    decreases entries.len(),
{
    if entries.len() == 0 {
        Seq::empty()
    } else if is_renewed(entries.last()) {
        renewed_hosts(entries.drop_last()).push(entries.last().host@)
    } else {
        renewed_hosts(entries.drop_last())
    }
}

/// The hosts whose certificates a renewal fetches.
pub fn hosts_to_refresh(config: &AppConfig) -> (hosts: Vec<String>)
    ensures
        hosts.deep_view() == renewed_hosts(config.domains@),
{
    let mut hosts: Vec<String> = Vec::new();
    let mut i: usize = 0;
    assert(config.domains@.take(0) =~= Seq::<DomainEntry>::empty());
    assert(hosts.deep_view() =~= Seq::<Seq<char>>::empty());
    while i < config.domains.len()
        invariant
            i <= config.domains@.len(),
            hosts.deep_view() == renewed_hosts(config.domains@.take(i as int)),
        decreases config.domains.len() - i,
    {
        proof {
            assert(config.domains@.take(i + 1).drop_last() =~= config.domains@.take(i as int));
            assert(config.domains@.take(i + 1).last() == config.domains@[i as int]);
        }
        let entry = &config.domains[i];
        if entry.config.https && entry.config.tls.is_some() {
            let ghost before = hosts.deep_view();
            hosts.push(entry.host.clone());
            assert(hosts.deep_view() =~= before.push(entry.host@));
        }
        i = i + 1;
    }
    assert(config.domains@.take(config.domains@.len() as int) =~= config.domains@);
    hosts
}

/// Where the certificate of the first run comes from.
#[derive(Debug, Clone)]
pub enum CertificateSource {
    /// Certificate and key are on disk already.
    OnDisk,
    /// They are fetched from the certificate server at this address.
    Fetch(String),
    /// A self-signed certificate is made.
    SelfSigned,
}

/// Where the certificate of the first run comes from: nothing is done where
/// both files exist; else it is fetched where a certificate server is
/// named, and self-signed where none is.
pub fn first_run_certificate(cert_exists: bool, key_exists: bool, cert_server: Option<String>) -> (r:
    CertificateSource)
    ensures
        match r {
            CertificateSource::OnDisk => cert_exists && key_exists,
            CertificateSource::Fetch(server) => !(cert_exists && key_exists) && cert_server
                == Some(server),
            CertificateSource::SelfSigned => !(cert_exists && key_exists) && cert_server is None,
        },
{
    if cert_exists && key_exists {
        CertificateSource::OnDisk
    } else {
        match cert_server {
            Some(server) => CertificateSource::Fetch(server),
            None => CertificateSource::SelfSigned,
        }
    }
}

} // verus!
