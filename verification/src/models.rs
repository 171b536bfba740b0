//! The configuration of one domain, as the proxy core reads it.

use crate::search::{
    first_match, lemma_first_match_after_push, lemma_first_match_after_update,
    lemma_first_match_bounds, lemma_first_match_is,
};
use crate::text::same_text;
use vstd::prelude::*;

verus! {

/// One allowed origin with the methods it may use: a comma-separated list,
/// or `*` or nothing for every method.
#[derive(Debug, Clone)]
pub struct OriginRule {
    pub origin: String,
    pub methods: String,
}

/// Cross-origin policy of a domain: a map from allowed origins to their
/// methods, `origins` holding its entries. The origin `*` stands for every
/// origin that has no rule of its own.
#[derive(Debug, Clone)]
pub struct CorsConfig {
    pub origins: Vec<OriginRule>,
}

/// Whether a rule is for `origin`.
pub open spec fn rule_is_for(origin: Seq<char>) -> spec_fn(OriginRule) -> bool {
    |rule: OriginRule| rule.origin@ == origin
}

impl CorsConfig {
    /// No origin occurs twice.
    pub open spec fn wf(self) -> bool {
        forall|i: int, j: int|
            0 <= i < j < self.origins@.len() ==> #[trigger] self.origins@[i].origin@
                != #[trigger] self.origins@[j].origin@
    }

    /// The methods of the rule for `origin` itself.
    pub open spec fn methods_of(self, origin: Seq<char>) -> Option<Seq<char>> {
        let i = first_match(self.origins@, rule_is_for(origin));
        if i < self.origins@.len() {
            Some(self.origins@[i].methods@)
        } else {
            None
        }
    }

    /// Position of the rule for `origin` itself, if there is one.
    pub fn position(&self, origin: &str) -> (r: Option<usize>)
        ensures
            match r {
                Some(i) => i < self.origins@.len() && i == first_match(
                    self.origins@,
                    rule_is_for(origin@),
                ),
                None => first_match(self.origins@, rule_is_for(origin@)) == self.origins@.len(),
            },
    {
        let mut i: usize = 0;
        while i < self.origins.len()
            invariant
                i <= self.origins@.len(),
                forall|k: int| 0 <= k < i ==> !rule_is_for(origin@)(#[trigger] self.origins@[k]),
            decreases self.origins.len() - i,
        {
            if same_text(self.origins[i].origin.as_str(), origin) {
                proof {
                    lemma_first_match_is(self.origins@, rule_is_for(origin@), i as int);
                }
                return Some(i);
            }
            i = i + 1;
        }
        proof {
            lemma_first_match_is(self.origins@, rule_is_for(origin@), i as int);
        }
        None
    }

    /// Sets the methods of `origin`, in place of an earlier rule for the
    /// same origin.
    pub fn insert_origin(&mut self, origin: String, methods: String)
        ensures
            final(self).methods_of(origin@) == Some(methods@),
            forall|other: Seq<char>|
                other != origin@ ==> final(self).methods_of(other) == old(self).methods_of(other),
            old(self).wf() ==> final(self).wf(),
    {
        let found = self.position(origin.as_str());
        let ghost before = self.origins@;
        let ghost name = origin@;
        let rule = OriginRule { origin, methods };
        proof {
            lemma_first_match_bounds(before, rule_is_for(name));
        }
        match found {
            Some(i) => {
                self.origins[i] = rule;
                proof {
                    assert(self.origins@ =~= before.update(i as int, rule));
                    assert(rule_is_for(name)(before[i as int]));
                    assert forall|other: Seq<char>| #[trigger]
                        self.methods_of(other) == (if other == name {
                            Some(methods@)
                        } else {
                            old(self).methods_of(other)
                        }) by {
                        lemma_first_match_after_update(
                            before,
                            i as int,
                            rule,
                            rule_is_for(other),
                        );
                        let n = first_match(before, rule_is_for(other));
                        if n < before.len() {
                            lemma_first_match_bounds(before, rule_is_for(other));
                            assert(rule_is_for(other)(before[n]));
                        }
                    }
                    if old(self).wf() {
                        assert forall|a: int, b: int|
                            0 <= a < b < self.origins@.len() implies #[trigger] self.origins@[a].origin@
                            != #[trigger] self.origins@[b].origin@ by {
                            assert(before[a].origin@ != before[b].origin@);
                        }
                    }
                }
            },
            None => {
                self.origins.push(rule);
                proof {
                    assert(self.origins@ =~= before.push(rule));
                    assert forall|other: Seq<char>| #[trigger]
                        self.methods_of(other) == (if other == name {
                            Some(methods@)
                        } else {
                            old(self).methods_of(other)
                        }) by {
                        lemma_first_match_after_push(before, rule, rule_is_for(other));
                    }
                    if old(self).wf() {
                        assert forall|a: int, b: int|
                            0 <= a < b < self.origins@.len() implies #[trigger] self.origins@[a].origin@
                            != #[trigger] self.origins@[b].origin@ by {
                            if b < before.len() {
                                assert(before[a].origin@ != before[b].origin@);
                            } else {
                                assert(!rule_is_for(name)(before[a]));
                            }
                        }
                    }
                }
            },
        }
    }
}

impl Default for CorsConfig {
    fn default() -> (r: CorsConfig)
        ensures
            r.origins@.len() == 0,
            r.wf(),
    {
        CorsConfig { origins: Vec::new() }
    }
}

/// The methods a domain accepts: a comma-separated list, or `*` for all.
#[derive(Debug, Clone)]
pub struct MethodsConfig {
    pub allow: String,
}

/// What a domain does with a request that arrives over plain HTTP.
#[derive(Debug, Clone, Copy, PartialEq, Eq, Structural)]
pub enum HttpOptions {
    Upgrade,
    Reject,
    Allow,
}

impl Default for HttpOptions {
    fn default() -> (r: HttpOptions)
        ensures
            r == HttpOptions::Allow,
    {
        HttpOptions::Allow
    }
}

/// Where the certificate and the private key of a domain are kept.
#[derive(Debug, Clone)]
pub struct TlsConfig {
    pub cert: String,
    pub key: String,
}

/// A host name and the file that configures it.
#[derive(Debug, Clone)]
pub struct DomainFile {
    pub host: String,
    pub file: String,
}

/// The main configuration: which file configures which host.
#[derive(Debug, Clone)]
pub struct MainConfig {
    pub domains: Vec<DomainFile>,
}

/// A routing rule: requests whose path matches `path` go to `targets`,
/// tried in order.
#[derive(Debug, Clone)]
pub struct Route {
    pub path: String,
    pub targets: Vec<String>,
    pub websocket: bool,
}

/// The pattern of a route that names none: it matches every path.
pub fn default_path() -> (r: String)
    ensures
        r@ == seq!['/'],
{
    proof {
        reveal_strlit("/");
    }
    let r = "/".to_owned();
    assert(r@ =~= seq!['/']);
    r
}

/// A rate limit: `requests` per `period`, the period written as a number
/// followed by `s`, `m` or `h`.
#[derive(Debug, Clone)]
pub struct RateLimitRule {
    pub period: String,
    pub requests: u32,
}

/// A rate limit for the paths that match `path`.
#[derive(Debug, Clone)]
pub struct RateLimitRouteRule {
    pub path: String,
    pub rule: RateLimitRule,
}

/// The rate limits of a domain.
#[derive(Debug, Clone)]
pub struct RateLimitConfig {
    pub default: Option<RateLimitRule>,
    pub routes: Vec<RateLimitRouteRule>,
    pub overrides: Vec<RateLimitRouteRule>,
}

impl Default for RateLimitConfig {
    fn default() -> (r: RateLimitConfig)
        ensures
            r.default is None,
            r.routes@.len() == 0,
            r.overrides@.len() == 0,
    {
        RateLimitConfig::empty()
    }
}

impl RateLimitConfig {
    /// No limits at all.
    pub fn empty() -> (r: RateLimitConfig)
        ensures
            r.default is None,
            r.routes@.len() == 0,
            r.overrides@.len() == 0,
    {
        RateLimitConfig { default: None, routes: Vec::new(), overrides: Vec::new() }
    }
}

/// Everything configured for one host.
#[derive(Debug, Clone)]
pub struct DomainConfig {
    pub https: bool,
    pub http_options: HttpOptions,
    pub hsts: bool,
    pub http3: bool,
    pub tls: Option<TlsConfig>,
    pub routes: Vec<Route>,
    pub rate_limit: RateLimitConfig,
    pub cors: Option<CorsConfig>,
    pub methods: Option<MethodsConfig>,
}

impl DomainConfig {
    /// A domain that serves TLS names its certificate and key.
    pub open spec fn is_valid(self) -> bool {
        self.https ==> self.tls is Some
    }

    /// Whether the domain may be loaded: one that serves TLS must name its
    /// certificate and key.
    pub fn validate(&self) -> (ok: bool)
        ensures
            ok == self.is_valid(),
    {
        !self.https || self.tls.is_some()
    }

    /// A domain with nothing switched on and nothing configured.
    pub fn plain() -> (r: DomainConfig)
        ensures
            !r.https,
            !r.hsts,
            !r.http3,
            r.http_options == HttpOptions::Allow,
            r.tls is None,
            r.cors is None,
            r.methods is None,
            r.routes@.len() == 0,
            r.rate_limit.default is None,
            r.rate_limit.routes@.len() == 0,
            r.rate_limit.overrides@.len() == 0,
            r.is_valid(),
    {
        DomainConfig {
            https: false,
            http_options: HttpOptions::Allow,
            hsts: false,
            http3: false,
            tls: None,
            routes: Vec::new(),
            rate_limit: RateLimitConfig::empty(),
            cors: None,
            methods: None,
        }
    }
}

} // verus!
