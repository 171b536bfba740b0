//! Which listeners run, and what each of them offers.

use crate::config::{AppConfig, DomainEntry};
use crate::pipeline::Listener;
use crate::text::{lower_case, same_text, to_lowercase};
use vstd::prelude::*;

verus! {

/// The most that the HTTP/3 listener buffers of a response body: 10 MiB.
pub const H3_RESPONSE_BODY_LIMIT: usize = 10485760;

/// The listeners to start.
#[derive(Debug, Clone, Copy, PartialEq, Eq, Structural)]
pub struct ListenerPlan {
    pub http: bool,
    pub https: bool,
    pub http3: bool,
}

/// Some domain serves TLS.
pub open spec fn any_https(entries: Seq<DomainEntry>) -> bool {
    exists|i: int| 0 <= i < entries.len() && (#[trigger] entries[i]).config.https
}

/// Some domain serves HTTP/3.
pub open spec fn any_http3(entries: Seq<DomainEntry>) -> bool {
    exists|i: int| 0 <= i < entries.len() && (#[trigger] entries[i]).config.http3
}

/// The plain-HTTP listener always runs; the TLS listener over TCP where
/// some domain serves TLS; the HTTP/3 listener where some domain serves
/// HTTP/3.
pub fn plan_listeners(config: &AppConfig) -> (plan: ListenerPlan)
    ensures
        plan.http,
        plan.https == any_https(config.domains@),
        plan.http3 == any_http3(config.domains@),
{
    let mut https = false;
    let mut http3 = false;
    let mut i: usize = 0;
    while i < config.domains.len()
        invariant
            i <= config.domains@.len(),
            https == exists|k: int| 0 <= k < i && (#[trigger] config.domains@[k]).config.https,
            http3 == exists|k: int| 0 <= k < i && (#[trigger] config.domains@[k]).config.http3,
        decreases config.domains.len() - i,
    {
        if config.domains[i].config.https {
            https = true;
        }
        if config.domains[i].config.http3 {
            http3 = true;
        }
        i = i + 1;
    }
    ListenerPlan { http: true, https, http3 }
}

/// What the process does with the configuration it loaded.
#[derive(Debug, Clone, Copy, PartialEq, Eq, Structural)]
pub enum Startup {
    /// No domain is configured: set up the example files and stop.
    FirstRun,
    /// Serve, with these listeners.
    Serve(ListenerPlan),
}

/// A configuration without domains leads to the first-run setup; any other
/// is served.
pub fn startup(config: &AppConfig) -> (r: Startup)
    ensures
        r == if config.domains@.len() == 0 {
            Startup::FirstRun
        } else {
            Startup::Serve(
                ListenerPlan {
                    http: true,
                    https: any_https(config.domains@),
                    http3: any_http3(config.domains@),
                },
            )
        },
{
    if config.is_empty() {
        Startup::FirstRun
    } else {
        Startup::Serve(plan_listeners(config))
    }
}

/// The protocols that a listener offers in the TLS handshake, the
/// preferred first. The plain-HTTP listener has no handshake.
pub open spec fn alpn_of(listener: Listener) -> Seq<Seq<char>> {
    match listener {
        Listener::Http => Seq::empty(),
        Listener::Https => seq!["h2"@, "http/1.1"@],
        Listener::Http3 => seq!["h3"@],
    }
}

/// The protocols that a listener offers in the TLS handshake.
pub fn alpn_protocols(listener: Listener) -> (r: Vec<&'static str>)
    ensures
        r.deep_view() == alpn_of(listener),
{
    let mut r: Vec<&'static str> = Vec::new();
    match listener {
        Listener::Http => {},
        Listener::Https => {
            r.push("h2");
            r.push("http/1.1");
        },
        Listener::Http3 => {
            r.push("h3");
        },
    }
    assert(r.deep_view() =~= alpn_of(listener));
    r
}

/// How much the process logs.
#[derive(Debug, Clone, Copy, PartialEq, Eq, Structural)]
pub enum LogLevel {
    Debug,
    Info,
    Warn,
    Error,
}

/// The level that a setting names, whatever the case of its letters; a
/// setting that names none means `info`.
pub open spec fn log_level_of(setting: Seq<char>) -> LogLevel {
    let name = lower_case(setting);
    if name == "debug"@ {
        LogLevel::Debug
    } else if name == "warn"@ {
        LogLevel::Warn
    } else if name == "error"@ {
        LogLevel::Error
    } else {
        LogLevel::Info
    }
}

/// Reads the log level from its setting.
pub fn log_level(setting: &str) -> (level: LogLevel)
    ensures
        level == log_level_of(setting@),
{
    let name = to_lowercase(setting);
    if same_text(name.as_str(), "debug") {
        LogLevel::Debug
    } else if same_text(name.as_str(), "warn") {
        LogLevel::Warn
    } else if same_text(name.as_str(), "error") {
        LogLevel::Error
    } else {
        LogLevel::Info
    }
}

} // verus!
