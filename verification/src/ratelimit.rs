//! The configurable rate limits: reading periods, building one limiter per
//! rule, finding the limiter of a request, and the order in which the
//! limiters of a request are asked.

use crate::config::{AppConfig, DomainEntry};
use crate::limiter::{
    period_fits, period_is_too_long, quota_is_live, refill_interval, Limiter,
};
use crate::models::{RateLimitRouteRule, RateLimitRule};
use crate::path_matcher::{get_match_score, match_score, pattern_matches, MatchScore};
use crate::text::{
    chars_of, joined, is_numeric, leading_count, lemma_leading_count, lemma_trailing_count,
    lower_case, parse_u64, parse_unsigned, to_lowercase, trailing_count, unicode_numeric,
};
use vstd::prelude::*;

verus! {

/// Why a period could not be read.
#[derive(Debug, Clone, Copy, PartialEq, Eq, Structural)]
pub enum DurationError {
    /// What stands before the unit is not an unsigned number of 64 bits.
    InvalidValue,
    /// The unit is not `s`, `m` or `h`.
    UnsupportedUnit,
    /// The period in seconds does not fit in 64 bits.
    TooLong,
}

/// The characters that count as numbers.
pub open spec fn is_number_char() -> spec_fn(char) -> bool {
    |c: char| unicode_numeric(c)
}

/// The characters that do not count as numbers.
pub open spec fn is_other_char() -> spec_fn(char) -> bool {
    |c: char| !unicode_numeric(c)
}

/// The part of a period that gives its value: the text without what
/// follows its last number character.
pub open spec fn value_part(text: Seq<char>) -> Seq<char> {
    text.take(text.len() - trailing_count(text, is_other_char()))
}

/// The part of a period that gives its unit: the text without the number
/// characters it starts with.
pub open spec fn unit_part(text: Seq<char>) -> Seq<char> {
    text.skip(leading_count(text, is_number_char()) as int)
}

/// Seconds in one `unit`.
pub open spec fn seconds_per_unit(unit: Seq<char>) -> Option<nat> {
    if unit == seq!['s'] {
        Some(1)
    } else if unit == seq!['m'] {
        Some(60)
    } else if unit == seq!['h'] {
        Some(3600)
    } else {
        None
    }
}

/// The seconds that a value and a unit spell: the value must be an unsigned
/// number of 64 bits, the unit one of `s`, `m`, `h`, and the product must
/// fit in 64 bits. A bad value is reported before a bad unit.
pub open spec fn duration_of_parts(value: Seq<char>, unit: Seq<char>) -> Result<u64, DurationError> {
    match parse_unsigned(value, u64::MAX as nat) {
        None => Err(DurationError::InvalidValue),
        Some(number) => match seconds_per_unit(unit) {
            None => Err(DurationError::UnsupportedUnit),
            Some(factor) => if number * factor > u64::MAX {
                Err(DurationError::TooLong)
            } else {
                Ok((number * factor) as u64)
            },
        },
    }
}

/// The seconds that a period such as `1s`, `10m` or `2H` spells.
pub open spec fn duration_of(period: Seq<char>) -> Result<u64, DurationError> {
    duration_of_parts(value_part(lower_case(period)), unit_part(lower_case(period)))
}

fn unit_factor(unit: &str) -> (r: Option<u64>)
    ensures
        match r {
            Some(factor) => seconds_per_unit(unit@) == Some(factor as nat),
            None => seconds_per_unit(unit@) is None,
        },
{
    if unit.unicode_len() != 1 {
        return None;
    }
    let c = unit.get_char(0);
    assert(unit@ =~= seq![c]);
    if c == 's' {
        Some(1)
    } else if c == 'm' {
        Some(60)
    } else if c == 'h' {
        Some(3600)
    } else {
        None
    }
}

/// Reads a period from its value and its unit.
pub fn duration_from_parts(value: &str, unit: &str) -> (r: Result<u64, DurationError>)
    ensures
        r == duration_of_parts(value@, unit@),
{
    match parse_u64(value) {
        None => Err(DurationError::InvalidValue),
        Some(number) => match unit_factor(unit) {
            None => Err(DurationError::UnsupportedUnit),
            Some(factor) => match number.checked_mul(factor) {
                Some(seconds) => Ok(seconds),
                None => Err(DurationError::TooLong),
            },
        },
    }
}

/// Reads a period such as `1s`, `10m` or `2H` and gives it in seconds.
pub fn parse_std_duration(period: &str) -> (r: Result<u64, DurationError>)
    ensures
        r == duration_of(period@),
{
    let lowered = to_lowercase(period);
    let text = lowered.as_str();
    let chars = chars_of(text);
    let n = chars.len();
    let mut end: usize = n;
    while end > 0 && !is_numeric(chars[end - 1])
        invariant
            end <= n == chars.len(),
            forall|k: int| end <= k < n ==> is_other_char()(#[trigger] chars@[k]),
        decreases end,
    {
        end = end - 1;
    }
    let mut start: usize = 0;
    while start < n && is_numeric(chars[start])
        invariant
            start <= n == chars.len(),
            forall|k: int| 0 <= k < start ==> is_number_char()(#[trigger] chars@[k]),
        decreases n - start,
    {
        start = start + 1;
    }
    proof {
        lemma_trailing_count(text@, is_other_char(), n - end);
        lemma_leading_count(text@, is_number_char(), start as int);
        assert(text@.subrange(0, end as int) =~= value_part(text@));
        assert(text@.subrange(start as int, n as int) =~= unit_part(text@));
    }
    duration_from_parts(text.substring_char(0, end), text.substring_char(start, n))
}

/// What a rule comes to when the limiters are built.
pub enum RuleStatus {
    /// The rule is not in force: its requests are zero, or its period is
    /// zero or cannot be read.
    Off,
    /// The rule is in force, with this period in seconds and these requests.
    Live(u64, u32),
    /// The rule would be in force, but its period is too long to count.
    TooLong,
}

/// What a rule for a path comes to. Only zero requests, a zero period and
/// a period that cannot be read switch a rule off; a period that is too
/// long is a fault of the configuration.
pub open spec fn rule_status(rule: RateLimitRule) -> RuleStatus {
    if rule.requests == 0 {
        RuleStatus::Off
    } else {
        match duration_of(rule.period@) {
            Err(DurationError::TooLong) => RuleStatus::TooLong,
            Err(_) => RuleStatus::Off,
            Ok(seconds) => if seconds == 0 {
                RuleStatus::Off
            } else if period_fits(seconds) {
                RuleStatus::Live(seconds, rule.requests)
            } else {
                RuleStatus::TooLong
            },
        }
    }
}

/// Whether `limiter` is the limiter of `requests` per `period` seconds: its
/// buckets hold `requests` cells and get one back every
/// `refill_interval(period, requests)` nanoseconds.
pub open spec fn is_limiter_of(limiter: Limiter, period: u64, requests: u32) -> bool {
    &&& limiter.period() == period
    &&& limiter.burst() == requests
    &&& limiter.refill() == refill_interval(period, requests)
}

/// The limiter of a rule for a path: none where the rule is off, and an
/// error where its period is too long.
pub fn limiter_for(rule: &RateLimitRule) -> (r: Result<Option<Limiter>, DurationError>)
    ensures
        match rule_status(*rule) {
            RuleStatus::Off => r matches Ok(None),
            RuleStatus::Live(period, requests) => r matches Ok(Some(limiter)) && is_limiter_of(
                limiter,
                period,
                requests,
            ),
            RuleStatus::TooLong => r matches Err(DurationError::TooLong),
        },
{
    if rule.requests == 0 {
        return Ok(None);
    }
    match parse_std_duration(rule.period.as_str()) {
        Err(DurationError::TooLong) => Err(DurationError::TooLong),
        Err(_) => Ok(None),
        Ok(seconds) => {
            if seconds == 0 {
                Ok(None)
            } else if period_is_too_long(seconds) {
                Err(DurationError::TooLong)
            } else {
                Ok(Limiter::new(seconds, rule.requests))
            }
        },
    }
}

/// A limiter under its key: the host name followed by the path pattern of
/// the rule it was made from.
pub struct KeyedLimiter {
    pub key: String,
    pub limiter: Limiter,
}

/// What a keyed limiter holds, but for its buckets, which change with every
/// request and cannot be seen.
pub struct LimiterView {
    pub key: Seq<char>,
    pub period: u64,
    pub burst: u32,
    pub refill: u64,
}

impl View for KeyedLimiter {
    type V = LimiterView;

    open spec fn view(&self) -> LimiterView {
        LimiterView {
            key: self.key@,
            period: self.limiter.period(),
            burst: self.limiter.burst(),
            refill: self.limiter.refill(),
        }
    }
}

impl DeepView for KeyedLimiter {
    type V = LimiterView;

    open spec fn deep_view(&self) -> LimiterView {
        self@
    }
}

/// The limiters of the rules of one host, in the order of the rules; only
/// a rule that is in force has one.
pub open spec fn rule_limiters(host: Seq<char>, rules: Seq<RateLimitRouteRule>) -> Seq<LimiterView>
    decreases rules.len(),
{
    if rules.len() == 0 {
        Seq::empty()
    } else {
        rule_limiters(host, rules.drop_last()) + match rule_status(rules.last().rule) {
            RuleStatus::Live(period, burst) => seq![
                LimiterView {
                    key: host + rules.last().path@,
                    period,
                    burst,
                    refill: refill_interval(period, burst) as u64,
                },
            ],
            _ => Seq::empty(),
        }
    }
}

/// Some rule among `rules` has a period that is too long.
pub open spec fn rules_too_long(rules: Seq<RateLimitRouteRule>) -> bool {
    exists|i: int| 0 <= i < rules.len() && rule_status((#[trigger] rules[i]).rule) is TooLong
}

/// Some rule for a path, of some domain, has a period that is too long.
pub open spec fn has_too_long_rule(entries: Seq<DomainEntry>) -> bool {
    exists|i: int|
        0 <= i < entries.len() && (rules_too_long((#[trigger] entries[i]).config.rate_limit.routes@)
            || rules_too_long(entries[i].config.rate_limit.overrides@))
}

/// The limiters of the route rules of all domains, in the order of the domains.
pub open spec fn route_limiters_of(entries: Seq<DomainEntry>) -> Seq<LimiterView>
    decreases entries.len(),
{
    if entries.len() == 0 {
        Seq::empty()
    } else {
        route_limiters_of(entries.drop_last()) + rule_limiters(
            entries.last().host@,
            entries.last().config.rate_limit.routes@,
        )
    }
}

/// The limiters of the override rules of all domains, in the order of the domains.
pub open spec fn override_limiters_of(entries: Seq<DomainEntry>) -> Seq<LimiterView>
    decreases entries.len(),
{
    if entries.len() == 0 {
        Seq::empty()
    } else {
        override_limiters_of(entries.drop_last()) + rule_limiters(
            entries.last().host@,
            entries.last().config.rate_limit.overrides@,
        )
    }
}

/// Adds the limiters of `rules` to `table`; whether none of the rules has
/// a period that is too long.
fn add_rule_limiters(table: &mut Vec<KeyedLimiter>, host: &str, rules: &Vec<RateLimitRouteRule>) -> (ok:
    bool)
    ensures
        ok == !rules_too_long(rules@),
        ok ==> final(table).deep_view() == old(table).deep_view() + rule_limiters(host@, rules@),
{
    let ghost before = table.deep_view();
    let mut i: usize = 0;
    assert(rules@.take(0) =~= Seq::<RateLimitRouteRule>::empty());
    assert(before + Seq::<LimiterView>::empty() =~= before);
    while i < rules.len()
        invariant
            i <= rules@.len(),
            table.deep_view() == before + rule_limiters(host@, rules@.take(i as int)),
            forall|k: int| 0 <= k < i ==> !(rule_status((#[trigger] rules@[k]).rule) is TooLong),
        decreases rules.len() - i,
    {
        let ghost seen = rules@.take(i as int);
        let ghost so_far = table.deep_view();
        proof {
            assert(rules@.take(i + 1).drop_last() =~= seen);
            assert(rules@.take(i + 1).last() == rules@[i as int]);
        }
        match limiter_for(&rules[i].rule) {
            Ok(Some(limiter)) => {
                let entry = KeyedLimiter { key: joined(host, rules[i].path.as_str()), limiter };
                table.push(entry);
                assert(table.deep_view() =~= so_far.push(entry@));
                assert(table.deep_view() =~= before + rule_limiters(host@, rules@.take(i + 1)));
            },
            Ok(None) => {
                assert(table.deep_view() =~= before + rule_limiters(host@, rules@.take(i + 1)));
            },
            Err(_) => {
                assert(rule_status(rules@[i as int].rule) is TooLong);
                return false;
            },
        }
        i = i + 1;
    }
    assert(rules@.take(rules@.len() as int) =~= rules@);
    true
}

/// Builds the limiters of all route rules and of all override rules, one
/// per rule that is in force, each under the host name followed by the
/// rule's path pattern. A rule whose period is too long to count makes the
/// whole build fail: no rule that is in force is left without its limiter.
pub fn build_route_limiters(config: &AppConfig) -> (r: Result<
    (Vec<KeyedLimiter>, Vec<KeyedLimiter>),
    DurationError,
>)
    ensures
        r is Ok <==> !has_too_long_rule(config.domains@),
        r matches Ok(tables) ==> tables.0.deep_view() == route_limiters_of(config.domains@)
            && tables.1.deep_view() == override_limiters_of(config.domains@),
        r matches Err(e) ==> e == DurationError::TooLong,
{
    let mut routes: Vec<KeyedLimiter> = Vec::new();
    let mut overrides: Vec<KeyedLimiter> = Vec::new();
    let mut i: usize = 0;
    assert(config.domains@.take(0) =~= Seq::<DomainEntry>::empty());
    assert(routes.deep_view() =~= Seq::<LimiterView>::empty());
    assert(overrides.deep_view() =~= Seq::<LimiterView>::empty());
    while i < config.domains.len()
        invariant
            i <= config.domains@.len(),
            routes.deep_view() == route_limiters_of(config.domains@.take(i as int)),
            overrides.deep_view() == override_limiters_of(config.domains@.take(i as int)),
            forall|k: int|
                0 <= k < i ==> !rules_too_long(
                    (#[trigger] config.domains@[k]).config.rate_limit.routes@,
                ) && !rules_too_long(config.domains@[k].config.rate_limit.overrides@),
        decreases config.domains.len() - i,
    {
        proof {
            assert(config.domains@.take(i + 1).drop_last() =~= config.domains@.take(i as int));
            assert(config.domains@.take(i + 1).last() == config.domains@[i as int]);
        }
        let entry = &config.domains[i];
        if !add_rule_limiters(&mut routes, entry.host.as_str(), &entry.config.rate_limit.routes) {
            return Err(DurationError::TooLong);
        }
        if !add_rule_limiters(
            &mut overrides,
            entry.host.as_str(),
            &entry.config.rate_limit.overrides,
        ) {
            return Err(DurationError::TooLong);
        }
        i = i + 1;
    }
    assert(config.domains@.take(config.domains@.len() as int) =~= config.domains@);
    Ok((routes, overrides))
}

/// The quota of the default limiter: that of the first domain, in their
/// order, whose default rule is in force. A default rule whose period cannot
/// be read, or is too long to count, met before such a domain, is an error.
pub open spec fn global_quota(entries: Seq<DomainEntry>) -> Result<Option<(u64, u32)>, DurationError>
    decreases entries.len(),
{
    if entries.len() == 0 {
        Ok(None)
    } else {
        match entries[0].config.rate_limit.default {
            None => global_quota(entries.drop_first()),
            Some(rule) => match duration_of(rule.period@) {
                Err(e) => Err(e),
                Ok(seconds) => if !quota_is_live(seconds, rule.requests) {
                    global_quota(entries.drop_first())
                } else if period_fits(seconds) {
                    Ok(Some((seconds, rule.requests)))
                } else {
                    Err(DurationError::TooLong)
                },
            },
        }
    }
}

/// Whether `limiter`, or the lack of one, is what `quota` asks for.
pub open spec fn is_default_limiter(limiter: Option<Limiter>, quota: Option<(u64, u32)>) -> bool {
    match quota {
        Some((period, requests)) => limiter matches Some(l) && is_limiter_of(l, period, requests),
        None => limiter is None,
    }
}

/// Builds the default limiter, the one that every request of a configured
/// host meets unless an override took it; nothing where no domain has a
/// default rule in force.
pub fn build_global_limiter(config: &AppConfig) -> (r: Result<Option<Limiter>, DurationError>)
    ensures
        match global_quota(config.domains@) {
            Ok(quota) => r matches Ok(limiter) && is_default_limiter(limiter, quota),
            Err(e) => r matches Err(f) && f == e,
        },
{
    let mut i: usize = 0;
    assert(config.domains@.skip(0) =~= config.domains@);
    while i < config.domains.len()
        invariant
            i <= config.domains@.len(),
            global_quota(config.domains@) == global_quota(config.domains@.skip(i as int)),
        decreases config.domains.len() - i,
    {
        proof {
            assert(config.domains@.skip(i as int).drop_first() =~= config.domains@.skip(i + 1));
            assert(config.domains@.skip(i as int)[0] == config.domains@[i as int]);
        }
        if let Some(rule) = &config.domains[i].config.rate_limit.default {
            match parse_std_duration(rule.period.as_str()) {
                Err(e) => {
                    return Err(e);
                },
                Ok(seconds) => {
                    if seconds != 0 && rule.requests != 0 {
                        if period_is_too_long(seconds) {
                            return Err(DurationError::TooLong);
                        }
                        return Ok(Limiter::new(seconds, rule.requests));
                    }
                },
            }
        }
        i = i + 1;
    }
    Ok(None)
}

/// Limiter `i` exists and its key matches `path`.
pub open spec fn key_matches(table: Seq<LimiterView>, path: Seq<char>, i: int) -> bool {
    0 <= i < table.len() && pattern_matches(table[i].key, path)
}

/// The score of the key of limiter `i` on `path`.
pub open spec fn key_score(table: Seq<LimiterView>, path: Seq<char>, i: int) -> MatchScore {
    match_score(table[i].key, path).unwrap()
}

/// Limiter `i` is the one for `path`: its key matches, no key matches with
/// a better score, and of those with its score it comes last.
pub open spec fn is_chosen(table: Seq<LimiterView>, path: Seq<char>, i: int) -> bool {
    &&& key_matches(table, path, i)
    &&& forall|j: int| #[trigger]
        key_matches(table, path, j) ==> !key_score(table, path, j).beats(key_score(table, path, i))
            && (j > i ==> key_score(table, path, i).beats(key_score(table, path, j)))
}

/// No key of the table matches `path`.
pub open spec fn none_matches(table: Seq<LimiterView>, path: Seq<char>) -> bool {
    forall|i: int| !key_matches(table, path, i)
}

/// The limiter found for a path, with the pattern that it stands under.
pub struct FoundMatch<'a> {
    pub limiter: &'a Limiter,
    pub pattern: &'a str,
    pub index: usize,
    pub score: MatchScore,
}

/// Finds the limiter whose key matches `full_path` most specifically; of
/// several with the best score, the one that was added last.
pub fn find_best_match<'a>(limiters: &'a Vec<KeyedLimiter>, full_path: &str) -> (r: Option<
    FoundMatch<'a>,
>)
    ensures
        match r {
            Some(found) => {
                &&& is_chosen(limiters.deep_view(), full_path@, found.index as int)
                &&& found.pattern@ == limiters@[found.index as int].key@
                &&& *found.limiter == limiters@[found.index as int].limiter
                &&& found.score == key_score(limiters.deep_view(), full_path@, found.index as int)
            },
            None => none_matches(limiters.deep_view(), full_path@),
        },
{
    let ghost table = limiters.deep_view();
    let mut best: Option<(MatchScore, usize)> = None;
    let mut k: usize = 0;
    while k < limiters.len()
        invariant
            k <= limiters@.len(),
            table == limiters.deep_view(),
            best is None ==> forall|j: int| 0 <= j < k ==> !key_matches(table, full_path@, j),
            best matches Some((score, b)) ==> {
                &&& b < k
                &&& key_matches(table, full_path@, b as int)
                &&& score == key_score(table, full_path@, b as int)
                &&& forall|j: int|
                    0 <= j < k && #[trigger] key_matches(table, full_path@, j) ==> !key_score(
                        table,
                        full_path@,
                        j,
                    ).beats(score) && (j > b ==> score.beats(key_score(table, full_path@, j)))
            },
        decreases limiters.len() - k,
    {
        assert(table[k as int] == limiters@[k as int]@);
        if let Some(current) = get_match_score(limiters[k].key.as_str(), full_path) {
            assert(key_matches(table, full_path@, k as int));
            match best {
                Some((score, b)) => {
                    if !score.is_better_than(&current) {
                        best = Some((current, k));
                        assert forall|j: int|
                            0 <= j < k + 1 && #[trigger] key_matches(
                                table,
                                full_path@,
                                j,
                            ) implies !key_score(table, full_path@, j).beats(current) && (j > k
                            ==> current.beats(key_score(table, full_path@, j))) by {
                            if j < k {
                                assert(!key_score(table, full_path@, j).beats(score));
                            }
                        }
                    }
                },
                None => {
                    best = Some((current, k));
                },
            }
        }
        k = k + 1;
    }
    match best {
        None => None,
        Some((score, b)) => {
            assert(table[b as int] == limiters@[b as int]@);
            Some(
                FoundMatch {
                    limiter: &limiters[b].limiter,
                    pattern: limiters[b].key.as_str(),
                    index: b,
                    score,
                },
            )
        },
    }
}

/// What the listeners share: the configuration and the limiters built from it.
pub struct AppState {
    pub config: AppConfig,
    /// The default limiter, where a default rule is in force.
    pub configurable_limiter: Option<Limiter>,
    pub route_limiters: Vec<KeyedLimiter>,
    pub override_limiters: Vec<KeyedLimiter>,
}

/// Builds the shared state: every limiter is made here, once. A default
/// rule that cannot be read, and any rule whose period is too long to
/// count, stops the build.
pub fn build_shared_state(config: AppConfig) -> (r: Result<AppState, DurationError>)
    ensures
        r is Ok <==> global_quota(config.domains@) is Ok && !has_too_long_rule(config.domains@),
        r matches Ok(state) ==> {
            &&& state.config == config
            &&& state.route_limiters.deep_view() == route_limiters_of(config.domains@)
            &&& state.override_limiters.deep_view() == override_limiters_of(config.domains@)
            &&& global_quota(config.domains@) matches Ok(quota) && is_default_limiter(
                state.configurable_limiter,
                quota,
            )
        },
        r matches Err(e) ==> match global_quota(config.domains@) {
            Err(f) => e == f,
            Ok(_) => e == DurationError::TooLong,
        },
{
    let configurable_limiter = match build_global_limiter(&config) {
        Ok(limiter) => limiter,
        Err(e) => {
            return Err(e);
        },
    };
    let (route_limiters, override_limiters) = match build_route_limiters(&config) {
        Ok(tables) => tables,
        Err(e) => {
            return Err(e);
        },
    };
    Ok(AppState { config, configurable_limiter, route_limiters, override_limiters })
}

/// The limiters that a request has to pass, after the shield: the override
/// limiter alone where one matches; else the route limiter, where one
/// matches, and then the default limiter, where there is one.
#[derive(Debug, Clone, Copy, PartialEq, Eq, Structural)]
pub struct LimitPlan {
    pub override_at: Option<usize>,
    pub route_at: Option<usize>,
    pub default_on: bool,
}

/// Whether `plan` is the plan for a request of `host` for `path`. A host
/// without configuration passes no limiter. The limiters are looked up
/// under the host name followed by the path.
pub open spec fn is_plan_for(state: AppState, host: Seq<char>, path: Seq<char>, plan: LimitPlan)
    -> bool {
    let key = host + path;
    let overrides = state.override_limiters.deep_view();
    let routes = state.route_limiters.deep_view();
    if state.config.domain(host) is None {
        plan == (LimitPlan { override_at: None, route_at: None, default_on: false })
    } else {
        &&& match plan.override_at {
            Some(i) => is_chosen(overrides, key, i as int) && plan.route_at is None
                && !plan.default_on,
            None => none_matches(overrides, key) && plan.default_on
                == state.configurable_limiter is Some && match plan.route_at {
                Some(j) => is_chosen(routes, key, j as int),
                None => none_matches(routes, key),
            },
        }
    }
}

/// Plans the limiters for a request.
pub fn plan_limits(state: &AppState, host: &str, path: &str) -> (plan: LimitPlan)
    ensures
        is_plan_for(*state, host@, path@, plan),
{
    if state.config.lookup(host).is_none() {
        return LimitPlan { override_at: None, route_at: None, default_on: false };
    }
    let key = joined(host, path);
    if let Some(found) = find_best_match(&state.override_limiters, key.as_str()) {
        return LimitPlan { override_at: Some(found.index), route_at: None, default_on: false };
    }
    let route_at = match find_best_match(&state.route_limiters, key.as_str()) {
        Some(found) => Some(found.index),
        None => None,
    };
    LimitPlan { override_at: None, route_at, default_on: state.configurable_limiter.is_some() }
}

/// What the limiters said to a request: for the shield, and for each
/// limiter that was asked, whether it let the request through.
#[derive(Debug, Clone, Copy, PartialEq, Eq, Structural)]
pub struct LimitTrace {
    pub shield: bool,
    pub override_check: Option<bool>,
    pub route_check: Option<bool>,
    pub default_check: Option<bool>,
}

/// Whether an answer, where there is one, lets the request through.
pub open spec fn passes(check: Option<bool>) -> bool {
    check != Some(false)
}

/// Whether the request goes on: no limiter that was asked refused it.
pub open spec fn verdict(trace: LimitTrace) -> bool {
    trace.shield && passes(trace.override_check) && passes(trace.route_check) && passes(
        trace.default_check,
    )
}

/// Whether `trace` asks the limiters that `plan` names, in their order, and
/// stops at the first that refuses: behind a shield that refused nothing is
/// asked; the default limiter is not asked after the route limiter refused.
pub open spec fn trace_follows(plan: LimitPlan, trace: LimitTrace) -> bool {
    if !trace.shield {
        trace.override_check is None && trace.route_check is None && trace.default_check is None
    } else {
        &&& trace.override_check is Some <==> plan.override_at is Some
        &&& trace.route_check is Some <==> plan.route_at is Some
        &&& trace.default_check is Some <==> plan.default_on && passes(trace.route_check)
    }
}

/// Whether the request goes on, given what the limiters said.
pub fn limit_verdict(trace: &LimitTrace) -> (allowed: bool)
    ensures
        allowed == verdict(*trace),
{
    let over = match trace.override_check {
        Some(ok) => ok,
        None => true,
    };
    let route = match trace.route_check {
        Some(ok) => ok,
        None => true,
    };
    let default = match trace.default_check {
        Some(ok) => ok,
        None => true,
    };
    trace.shield && over && route && default
}

/// How rate limiting ended for a request.
#[derive(Debug, Clone, Copy, PartialEq, Eq, Structural)]
pub struct LimitOutcome {
    /// Whether the request goes on; it is answered as rate limited otherwise.
    pub allowed: bool,
    pub plan: LimitPlan,
    pub trace: LimitTrace,
}

/// The rate-limit layer, behind the shield. `shield_ok` is what the shield
/// said to the client. Where it let the request through, the limiters that
/// the plan names are asked under the client's address, in their order and
/// up to the first refusal.
///
/// The contract fixes the plan, which answers the trace holds, and the
/// verdict. The buckets themselves are state of the limiter crate behind a
/// shared reference: that the answer recorded for a tier came from the
/// limiter that the plan names, and that no other bucket was drawn on, is
/// what the body does and no clause can say.
pub fn rate_limit_handler(
    state: &AppState,
    host: &str,
    path: &str,
    client_ip: &String,
    shield_ok: bool,
) -> (outcome: LimitOutcome)
    ensures
        outcome.trace.shield == shield_ok,
        is_plan_for(*state, host@, path@, outcome.plan),
        trace_follows(outcome.plan, outcome.trace),
        outcome.allowed == verdict(outcome.trace),
{
    let plan = plan_limits(state, host, path);
    let mut trace = LimitTrace {
        shield: shield_ok,
        override_check: None,
        route_check: None,
        default_check: None,
    };
    if !shield_ok {
        return LimitOutcome { allowed: false, plan, trace };
    }
    if let Some(i) = plan.override_at {
        assert(i < state.override_limiters@.len()) by {
            assert(key_matches(state.override_limiters.deep_view(), host@ + path@, i as int));
        }
        let ok = state.override_limiters[i].limiter.check(client_ip);
        trace.override_check = Some(ok);
        return LimitOutcome { allowed: ok, plan, trace };
    }
    if let Some(j) = plan.route_at {
        assert(j < state.route_limiters@.len()) by {
            assert(key_matches(state.route_limiters.deep_view(), host@ + path@, j as int));
        }
        let ok = state.route_limiters[j].limiter.check(client_ip);
        trace.route_check = Some(ok);
        if !ok {
            return LimitOutcome { allowed: false, plan, trace };
        }
    }
    if let Some(limiter) = &state.configurable_limiter {
        if plan.default_on {
            let ok = limiter.check(client_ip);
            trace.default_check = Some(ok);
            return LimitOutcome { allowed: ok, plan, trace };
        }
    }
    LimitOutcome { allowed: true, plan, trace }
}

/// A request that an override limiter lets through meets no other limiter:
/// neither the route limiter nor the default limiter is asked.
pub proof fn lemma_override_bypasses_the_rest(
    state: AppState,
    host: Seq<char>,
    path: Seq<char>,
    plan: LimitPlan,
    trace: LimitTrace,
)
    requires
        is_plan_for(state, host, path, plan),
        trace_follows(plan, trace),
        trace.override_check == Some(true),
    ensures
        trace.route_check is None,
        trace.default_check is None,
        verdict(trace),
{
}

/// The plan of a request names only limiters whose pattern matches the
/// request, and at most one of the overrides and one of the routes; so a
/// request never draws on the bucket of a pattern that it does not match,
/// and a request under an override draws on no route limiter at all.
pub proof fn lemma_limiters_stay_apart(
    state: AppState,
    host: Seq<char>,
    path: Seq<char>,
    plan: LimitPlan,
)
    requires
        is_plan_for(state, host, path, plan),
    ensures
        plan.override_at matches Some(i) ==> pattern_matches(
            state.override_limiters.deep_view()[i as int].key,
            host + path,
        ),
        plan.route_at matches Some(j) ==> pattern_matches(
            state.route_limiters.deep_view()[j as int].key,
            host + path,
        ),
        plan.override_at is Some ==> plan.route_at is None && !plan.default_on,
        state.config.domain(host) is None ==> plan.override_at is None && plan.route_at is None
            && !plan.default_on,
{
}

/// Some limiter of the table stands under `key`.
pub open spec fn table_has_key(table: Seq<LimiterView>, key: Seq<char>) -> bool {
    exists|i: int| 0 <= i < table.len() && (#[trigger] table[i]).key == key
}

/// Some rule among `rules` is in force and, for `host`, stands under `key`.
pub open spec fn has_live_rule(host: Seq<char>, rules: Seq<RateLimitRouteRule>, key: Seq<char>)
    -> bool {
    exists|j: int|
        0 <= j < rules.len() && rule_status((#[trigger] rules[j]).rule) is Live && host
            + rules[j].path@ == key
}

/// Some route rule of some domain is in force and stands under `key`.
pub open spec fn has_live_route_rule(entries: Seq<DomainEntry>, key: Seq<char>) -> bool {
    exists|d: int|
        0 <= d < entries.len() && has_live_rule(
            (#[trigger] entries[d]).host@,
            entries[d].config.rate_limit.routes@,
            key,
        )
}

/// Some override rule of some domain is in force and stands under `key`.
pub open spec fn has_live_override_rule(entries: Seq<DomainEntry>, key: Seq<char>) -> bool {
    exists|d: int|
        0 <= d < entries.len() && has_live_rule(
            (#[trigger] entries[d]).host@,
            entries[d].config.rate_limit.overrides@,
            key,
        )
}

/// A key is in two tables put together where it is in one of them.
proof fn lemma_key_of_joined_tables(a: Seq<LimiterView>, b: Seq<LimiterView>, key: Seq<char>)
    ensures
        table_has_key(a + b, key) <==> table_has_key(a, key) || table_has_key(b, key),
{
    if table_has_key(a + b, key) {
        let i = choose|i: int| 0 <= i < (a + b).len() && (#[trigger] (a + b)[i]).key == key;
        if i < a.len() {
            assert(a[i].key == key);
        } else {
            assert(b[i - a.len()].key == key);
        }
    }
    if table_has_key(a, key) {
        let i = choose|i: int| 0 <= i < a.len() && (#[trigger] a[i]).key == key;
        assert((a + b)[i].key == key);
    }
    if table_has_key(b, key) {
        let i = choose|i: int| 0 <= i < b.len() && (#[trigger] b[i]).key == key;
        assert((a + b)[i + a.len()].key == key);
    }
}

/// The limiters of the rules of one host stand under the keys of its rules
/// that are in force, and under no other.
pub proof fn lemma_rule_limiter_keys(
    host: Seq<char>,
    rules: Seq<RateLimitRouteRule>,
    key: Seq<char>,
)
    ensures
        table_has_key(rule_limiters(host, rules), key) <==> has_live_rule(host, rules, key),
    decreases rules.len(),
{
    if rules.len() > 0 {
        let front = rules.drop_last();
        let last = rules.last();
        let tail = match rule_status(last.rule) {
            RuleStatus::Live(period, burst) => seq![
                LimiterView {
                    key: host + last.path@,
                    period,
                    burst,
                    refill: refill_interval(period, burst) as u64,
                },
            ],
            _ => Seq::empty(),
        };
        lemma_rule_limiter_keys(host, front, key);
        lemma_key_of_joined_tables(rule_limiters(host, front), tail, key);
        if has_live_rule(host, front, key) {
            let j = choose|j: int|
                0 <= j < front.len() && rule_status((#[trigger] front[j]).rule) is Live && host
                    + front[j].path@ == key;
            assert(rules[j] == front[j]);
        }
        if table_has_key(tail, key) {
            assert(tail[0].key == key);
            assert(rules[rules.len() - 1] == last);
        }
        if has_live_rule(host, rules, key) {
            let j = choose|j: int|
                0 <= j < rules.len() && rule_status((#[trigger] rules[j]).rule) is Live && host
                    + rules[j].path@ == key;
            if j < front.len() {
                assert(front[j] == rules[j]);
            } else {
                assert(tail[0].key == key);
            }
        }
    }
}

/// The table of route limiters has a key exactly where some route rule in
/// force stands under it, and the table of override limiters exactly where
/// some override rule does: every rule in force has its limiter, in the
/// table of its own kind and in no other.
pub proof fn lemma_limiter_tables_hold_the_live_rules(entries: Seq<DomainEntry>, key: Seq<char>)
    ensures
        table_has_key(route_limiters_of(entries), key) <==> has_live_route_rule(entries, key),
        table_has_key(override_limiters_of(entries), key) <==> has_live_override_rule(
            entries,
            key,
        ),
    decreases entries.len(),
{
    if entries.len() > 0 {
        let front = entries.drop_last();
        let last = entries.last();
        lemma_limiter_tables_hold_the_live_rules(front, key);
        lemma_rule_limiter_keys(last.host@, last.config.rate_limit.routes@, key);
        lemma_rule_limiter_keys(last.host@, last.config.rate_limit.overrides@, key);
        lemma_key_of_joined_tables(
            route_limiters_of(front),
            rule_limiters(last.host@, last.config.rate_limit.routes@),
            key,
        );
        lemma_key_of_joined_tables(
            override_limiters_of(front),
            rule_limiters(last.host@, last.config.rate_limit.overrides@),
            key,
        );
        if has_live_route_rule(front, key) {
            let d = choose|d: int|
                0 <= d < front.len() && has_live_rule(
                    (#[trigger] front[d]).host@,
                    front[d].config.rate_limit.routes@,
                    key,
                );
            assert(entries[d] == front[d]);
        }
        if has_live_override_rule(front, key) {
            let d = choose|d: int|
                0 <= d < front.len() && has_live_rule(
                    (#[trigger] front[d]).host@,
                    front[d].config.rate_limit.overrides@,
                    key,
                );
            assert(entries[d] == front[d]);
        }
        if has_live_rule(last.host@, last.config.rate_limit.routes@, key) {
            assert(entries[entries.len() - 1] == last);
        }
        if has_live_rule(last.host@, last.config.rate_limit.overrides@, key) {
            assert(entries[entries.len() - 1] == last);
        }
        if has_live_route_rule(entries, key) {
            let d = choose|d: int|
                0 <= d < entries.len() && has_live_rule(
                    (#[trigger] entries[d]).host@,
                    entries[d].config.rate_limit.routes@,
                    key,
                );
            if d < front.len() {
                assert(front[d] == entries[d]);
            }
        }
        if has_live_override_rule(entries, key) {
            let d = choose|d: int|
                0 <= d < entries.len() && has_live_rule(
                    (#[trigger] entries[d]).host@,
                    entries[d].config.rate_limit.overrides@,
                    key,
                );
            if d < front.len() {
                assert(front[d] == entries[d]);
            }
        }
    }
}

} // verus!
