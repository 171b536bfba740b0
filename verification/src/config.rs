//! The frozen configuration of the whole proxy: two ports and the domains by
//! host name.

use crate::models::DomainConfig;
use crate::search::{first_match, lemma_first_match_bounds, lemma_first_match_is};
use crate::text::{parse_u64, parse_unsigned, same_text};
use vstd::prelude::*;

verus! {

/// A host name with its configuration.
#[derive(Debug, Clone)]
pub struct DomainEntry {
    pub host: String,
    pub config: DomainConfig,
}

/// The configuration the proxy runs with. It maps host names, compared
/// exactly, to domains; `domains` holds the entries of that map.
#[derive(Debug, Clone)]
pub struct AppConfig {
    pub http_port: u16,
    pub https_port: u16,
    pub domains: Vec<DomainEntry>,
}

/// The port of the plain-HTTP listener where none is set.
pub const DEFAULT_HTTP_PORT: u16 = 80;

/// The port of the TLS listeners where none is set.
pub const DEFAULT_HTTPS_PORT: u16 = 443;

/// Which of the two ports a setting is for.
#[derive(Debug, Clone, Copy, PartialEq, Eq, Structural)]
pub enum PortKind {
    Http,
    Https,
}

/// Why a configuration was refused.
#[derive(Debug, Clone)]
pub enum ConfigError {
    /// The text given for a port is not a number from 0 to 65535.
    InvalidPort(PortKind),
    /// The named host serves TLS but names no certificate and key.
    MissingTls(String),
}

/// Whether an entry is for `host`.
pub open spec fn entry_is_for(host: Seq<char>) -> spec_fn(DomainEntry) -> bool {
    |entry: DomainEntry| entry.host@ == host
}

impl AppConfig {
    /// Position of the entry for `host`, or the number of entries when
    /// there is none.
    pub open spec fn domain_index(self, host: Seq<char>) -> int {
        first_match(self.domains@, entry_is_for(host))
    }

    /// The domain configured for `host`.
    pub open spec fn domain(self, host: Seq<char>) -> Option<DomainConfig> {
        if self.domain_index(host) < self.domains@.len() {
            Some(self.domains@[self.domain_index(host)].config)
        } else {
            None
        }
    }

    /// No host occurs twice, and every domain that serves TLS names its
    /// certificate and key.
    pub open spec fn wf(self) -> bool {
        &&& forall|i: int, j: int|
            0 <= i < j < self.domains@.len() ==> #[trigger] self.domains@[i].host@
                != #[trigger] self.domains@[j].host@
        &&& forall|i: int|
            0 <= i < self.domains@.len() ==> (#[trigger] self.domains@[i]).config.is_valid()
    }

    /// A configuration without domains.
    pub fn new(http_port: u16, https_port: u16) -> (config: AppConfig)
        ensures
            config.http_port == http_port,
            config.https_port == https_port,
            config.domains@.len() == 0,
            config.wf(),
    {
        AppConfig { http_port, https_port, domains: Vec::new() }
    }

    /// Whether no domain is configured.
    pub fn is_empty(&self) -> (r: bool)
        ensures
            r == (self.domains@.len() == 0),
    {
        self.domains.len() == 0
    }

    /// Position of the entry for `host`, if there is one.
    pub fn position(&self, host: &str) -> (r: Option<usize>)
        ensures
            match r {
                Some(i) => i == self.domain_index(host@) && i < self.domains@.len(),
                None => self.domain_index(host@) == self.domains@.len(),
            },
    {
        let mut i: usize = 0;
        while i < self.domains.len()
            invariant
                i <= self.domains@.len(),
                forall|k: int| 0 <= k < i ==> !entry_is_for(host@)(#[trigger] self.domains@[k]),
            decreases self.domains.len() - i,
        {
            if same_text(self.domains[i].host.as_str(), host) {
                proof {
                    lemma_first_match_is(self.domains@, entry_is_for(host@), i as int);
                }
                return Some(i);
            }
            i = i + 1;
        }
        proof {
            lemma_first_match_is(self.domains@, entry_is_for(host@), i as int);
        }
        None
    }

    /// The domain configured for `host`, compared exactly as received.
    pub fn lookup(&self, host: &str) -> (r: Option<&DomainConfig>)
        ensures
            match r {
                Some(domain) => self.domain(host@) == Some(*domain),
                None => self.domain(host@) is None,
            },
    {
        match self.position(host) {
            Some(i) => Some(&self.domains[i].config),
            None => None,
        }
    }

    /// Adds the domain for `host`, in place of an earlier one for the same
    /// host. A domain that serves TLS without a certificate and key is
    /// refused and the configuration stays as it was.
    pub fn insert_domain(&mut self, host: String, config: DomainConfig) -> (r: Result<
        (),
        ConfigError,
    >)
        ensures
            r is Ok <==> config.is_valid(),
            r matches Err(e) ==> (e matches ConfigError::MissingTls(h) && h@ == host@)
                && *final(self) == *old(self),
            r is Ok ==> {
                &&& final(self).http_port == old(self).http_port
                &&& final(self).https_port == old(self).https_port
                &&& final(self).domain(host@) == Some(config)
                &&& forall|other: Seq<char>|
                    other != host@ ==> final(self).domain(other) == old(self).domain(other)
                &&& old(self).wf() ==> final(self).wf()
                &&& final(self).domains@.len() == if old(self).domain(host@) is Some {
                    old(self).domains@.len()
                } else {
                    old(self).domains@.len() + 1
                }
            },
    {
        if !config.validate() {
            return Err(ConfigError::MissingTls(host));
        }
        let found = self.position(host.as_str());
        let ghost before = self.domains@;
        let ghost name = host@;
        let entry = DomainEntry { host, config };
        match found {
            Some(i) => {
                self.domains[i] = entry;
                proof {
                    assert(self.domains@ =~= before.update(i as int, entry));
                    lemma_first_match_bounds(before, entry_is_for(name));
                    assert forall|other: Seq<char>| #[trigger]
                        self.domain(other) == (if other == name {
                            Some(config)
                        } else {
                            old(self).domain(other)
                        }) by {
                        lemma_replace_entry(before, i as int, entry, other);
                        lemma_first_match_bounds(before, entry_is_for(other));
                    }
                    assert(entry_is_for(name)(before[i as int]));
                    if old(self).wf() {
                        assert forall|a: int, b: int|
                            0 <= a < b < self.domains@.len() implies #[trigger] self.domains@[a].host@
                            != #[trigger] self.domains@[b].host@ by {
                            assert(before[a].host@ != before[b].host@);
                        }
                        assert forall|k: int| 0 <= k < self.domains@.len() implies (
                            #[trigger] self.domains@[k]
                        ).config.is_valid() by {
                            if k != i {
                                assert(before[k].config.is_valid());
                            }
                        }
                    }
                }
            },
            None => {
                self.domains.push(entry);
                proof {
                    assert(self.domains@ =~= before.push(entry));
                    assert forall|other: Seq<char>| #[trigger]
                        self.domain(other) == (if other == name {
                            Some(config)
                        } else {
                            old(self).domain(other)
                        }) by {
                        lemma_push_entry(before, entry, other);
                        lemma_first_match_bounds(before, entry_is_for(other));
                    }
                    lemma_first_match_bounds(before, entry_is_for(name));
                    if old(self).wf() {
                        assert forall|a: int, b: int|
                            0 <= a < b < self.domains@.len() implies #[trigger] self.domains@[a].host@
                            != #[trigger] self.domains@[b].host@ by {
                            if b < before.len() {
                                assert(before[a].host@ != before[b].host@);
                            } else {
                                assert(!entry_is_for(name)(before[a]));
                            }
                        }
                        assert forall|k: int| 0 <= k < self.domains@.len() implies (
                            #[trigger] self.domains@[k]
                        ).config.is_valid() by {
                            if k < before.len() {
                                assert(before[k].config.is_valid());
                            }
                        }
                    }
                }
            },
        }
        Ok(())
    }
}

/// Replacing the entry at `i` by one for the same host changes the domain of
/// that host and of no other.
proof fn lemma_replace_entry(before: Seq<DomainEntry>, i: int, entry: DomainEntry, other: Seq<char>)
    requires
        0 <= i < before.len(),
        i == first_match(before, entry_is_for(entry.host@)),
    ensures
        first_match(before.update(i, entry), entry_is_for(other)) == first_match(
            before,
            entry_is_for(other),
        ),
        other != entry.host@ && first_match(before, entry_is_for(other)) < before.len()
            ==> first_match(before, entry_is_for(other)) != i,
{
    let after = before.update(i, entry);
    let n = first_match(before, entry_is_for(other));
    lemma_first_match_bounds(before, entry_is_for(other));
    lemma_first_match_bounds(before, entry_is_for(entry.host@));
    assert(entry_is_for(entry.host@)(before[i]));
    assert forall|k: int| 0 <= k < n implies !entry_is_for(other)(#[trigger] after[k]) by {
        assert(!entry_is_for(other)(before[k]));
    }
    if n < before.len() {
        assert(entry_is_for(other)(before[n]));
    }
    lemma_first_match_is(after, entry_is_for(other), n);
}

/// Adding an entry for a host that has none changes the domain of that host
/// and of no other.
proof fn lemma_push_entry(before: Seq<DomainEntry>, entry: DomainEntry, other: Seq<char>)
    requires
        first_match(before, entry_is_for(entry.host@)) == before.len(),
    ensures
        first_match(before.push(entry), entry_is_for(other)) == if other == entry.host@ {
            before.len() as int
        } else if first_match(before, entry_is_for(other)) < before.len() {
            first_match(before, entry_is_for(other))
        } else {
            before.len() as int + 1
        },
{
    let after = before.push(entry);
    let n = first_match(before, entry_is_for(other));
    lemma_first_match_bounds(before, entry_is_for(other));
    assert forall|k: int| 0 <= k < n implies !entry_is_for(other)(#[trigger] after[k]) by {
        assert(!entry_is_for(other)(before[k]));
    }
    if n < before.len() {
        assert(entry_is_for(other)(before[n]));
        lemma_first_match_is(after, entry_is_for(other), n);
    } else if other == entry.host@ {
        lemma_first_match_is(after, entry_is_for(other), n);
    } else {
        assert(!entry_is_for(other)(after[n]));
        lemma_first_match_is(after, entry_is_for(other), n + 1);
    }
}

/// The port that a setting gives: `fallback` when there is no setting, else
/// the number the text spells, which must be at most 65535.
pub open spec fn port_setting(setting: Option<Seq<char>>, fallback: u16) -> Option<u16> {
    match setting {
        None => Some(fallback),
        Some(text) => match parse_unsigned(text, 65535) {
            Some(port) => Some(port as u16),
            None => None,
        },
    }
}

/// Reads a port from its optional setting.
pub fn port_from(setting: Option<&str>, fallback: u16, kind: PortKind) -> (r: Result<
    u16,
    ConfigError,
>)
    ensures
        match r {
            Ok(port) => port_setting(
                match setting {
                    Some(text) => Some(text@),
                    None => None,
                },
                fallback,
            ) == Some(port),
            Err(e) => e == ConfigError::InvalidPort(kind) && port_setting(
                match setting {
                    Some(text) => Some(text@),
                    None => None,
                },
                fallback,
            ) is None,
        },
{
    match setting {
        None => Ok(fallback),
        Some(text) => match parse_u64(text) {
            Some(value) => if value <= 65535 {
                Ok(value as u16)
            } else {
                Err(ConfigError::InvalidPort(kind))
            },
            None => Err(ConfigError::InvalidPort(kind)),
        },
    }
}

} // verus!
