//! Choosing the certificate of a TLS handshake by the server name that the
//! client asks for.

use crate::config::AppConfig;
use crate::models::TlsConfig;
use std::sync::Arc;
use vstd::prelude::*;

verus! {

/// Picks, handshake by handshake, the certificate and key of the domain
/// that the client names. It holds the configuration and nothing else.
#[derive(Debug)]
pub struct PerDomainCertResolver {
    app_config: Arc<AppConfig>,
}

/// The certificate and key files for a handshake that names `server_name`:
/// those of the domain of that name, where it is configured, serves TLS and
/// names them; none for a handshake without a name.
pub open spec fn certificate_for(config: AppConfig, server_name: Option<Seq<char>>) -> Option<
    TlsConfig,
> {
    match server_name {
        None => None,
        Some(name) => match config.domain(name) {
            None => None,
            Some(domain) => if domain.https {
                domain.tls
            } else {
                None
            },
        },
    }
}

impl PerDomainCertResolver {
    /// The configuration that the resolver reads.
    pub closed spec fn config(self) -> AppConfig {
        *self.app_config
    }

    /// A resolver that reads `app_config`.
    pub fn new(app_config: Arc<AppConfig>) -> (r: Self)
        ensures
            r.config() == *app_config,
    {
        Self { app_config }
    }

    /// The certificate and key files to answer a handshake with, or nothing
    /// where the handshake is to fail.
    pub fn resolve(&self, server_name: Option<&str>) -> (r: Option<&TlsConfig>)
        ensures
            match r {
                Some(tls) => certificate_for(
                    self.config(),
                    match server_name {
                        Some(name) => Some(name@),
                        None => None,
                    },
                ) == Some(*tls),
                None => certificate_for(
                    self.config(),
                    match server_name {
                        Some(name) => Some(name@),
                        None => None,
                    },
                ) is None,
            },
    {
        let name = match server_name {
            Some(name) => name,
            None => {
                return None;
            },
        };
        match self.app_config.lookup(name) {
            None => None,
            Some(domain) => if domain.https {
                match &domain.tls {
                    Some(tls) => Some(tls),
                    None => None,
                }
            } else {
                None
            },
        }
    }
}

/// A handshake that names a host without configuration gets no certificate.
pub proof fn lemma_unknown_name_gets_no_certificate(config: AppConfig, server_name: Seq<char>)
    requires
        config.domain(server_name) is None,
    ensures
        certificate_for(config, Some(server_name)) is None,
{
}

/// A handshake gets a certificate only for a domain that serves TLS.
pub proof fn lemma_certificate_only_for_tls_domains(config: AppConfig, server_name: Seq<char>)
    requires
        certificate_for(config, Some(server_name)) is Some,
    ensures
        config.domain(server_name) matches Some(domain) && domain.https && domain.tls
            == certificate_for(config, Some(server_name)),
{
}

} // verus!
