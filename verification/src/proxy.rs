//! Forwarding a request to the targets of its route: one attempt after the
//! other, in order, until a target answers with anything but a server error.

use crate::config::AppConfig;
use crate::error::{ErrorView, VaneError};
use crate::message::{edited_all, is_named, lemma_without, without, EditView, HeaderEdit, HeaderView};
use crate::routing::resolve_targets;
use crate::text::{joined, decimal, decimal_text};
use vstd::prelude::*;

verus! {

/// What `http::Uri` says against a URL: nothing where the URL parses, else
/// the text of the error.
pub uninterp spec fn uri_parse_error(url: Seq<char>) -> Option<Seq<char>>;

/// Parses `url` as an `http::Uri`, by `str::parse`, and hands back the text
/// of the error where it does not parse. The outcome is a matter of the
/// URL's text alone; the library names it and does not spell it out.
#[verifier::external_body]
fn check_uri(url: &str) -> (error: Option<String>)
    ensures
        match error {
            Some(text) => uri_parse_error(url@) == Some(text@),
            None => uri_parse_error(url@) is None,
        },
{
    match url.parse::<http::Uri>() {
        Ok(_) => None,
        Err(e) => Some(e.to_string()),
    }
}

/// `target` without one slash at its end, where it ends in one.
pub open spec fn without_trailing_slash(target: Seq<char>) -> Seq<char> {
    if target.len() > 0 && target.last() == '/' {
        target.drop_last()
    } else {
        target
    }
}

/// The URL of an attempt: the target without its trailing slash, followed
/// by the path and query of the request.
pub open spec fn target_url(target: Seq<char>, path_and_query: Seq<char>) -> Seq<char> {
    without_trailing_slash(target) + path_and_query
}

/// Builds the URL of an attempt.
pub fn build_target_url(target: &str, path_and_query: &str) -> (url: String)
    ensures
        url@ == target_url(target@, path_and_query@),
{
    let n = target.unicode_len();
    if n > 0 && target.get_char(n - 1) == '/' {
        let head = target.substring_char(0, n - 1);
        assert(head@ =~= target@.drop_last());
        joined(head, path_and_query)
    } else {
        joined(target, path_and_query)
    }
}

/// Whether a header goes by one of the names under which a client could
/// pass for another address.
pub open spec fn is_address_header(header: HeaderView) -> bool {
    ||| is_named("x-real-ip"@)(header)
    ||| is_named("x-forwarded-for"@)(header)
    ||| is_named("x-forwarded"@)(header)
    ||| is_named("forwarded-for"@)(header)
    ||| is_named("forwarded"@)(header)
}

/// The header that tells a target the client's address.
pub open spec fn forwarded_for() -> Seq<char> {
    "x-forwarded-for"@
}

/// The changes made to the headers of every attempt: the address headers
/// that came in are taken out, and the client's address, where it is known,
/// is put in as the one forwarded-for header.
pub open spec fn outbound_edits(client_ip: Option<Seq<char>>) -> Seq<EditView> {
    let removals = seq![
        EditView::Remove("x-real-ip"@),
        EditView::Remove("x-forwarded-for"@),
        EditView::Remove("x-forwarded"@),
        EditView::Remove("forwarded-for"@),
        EditView::Remove("forwarded"@),
    ];
    match client_ip {
        Some(ip) => removals.push(EditView::Insert(forwarded_for(), ip)),
        None => removals,
    }
}

/// The changes to make to the headers of an attempt.
pub fn outbound_header_edits(client_ip: Option<&str>) -> (edits: Vec<HeaderEdit>)
    ensures
        edits.deep_view() == outbound_edits(
            match client_ip {
                Some(ip) => Some(ip@),
                None => None,
            },
        ),
{
    let mut edits: Vec<HeaderEdit> = Vec::new();
    edits.push(HeaderEdit::Remove("x-real-ip".to_owned()));
    edits.push(HeaderEdit::Remove("x-forwarded-for".to_owned()));
    edits.push(HeaderEdit::Remove("x-forwarded".to_owned()));
    edits.push(HeaderEdit::Remove("forwarded-for".to_owned()));
    edits.push(HeaderEdit::Remove("forwarded".to_owned()));
    match client_ip {
        Some(ip) => {
            edits.push(HeaderEdit::Insert("x-forwarded-for".to_owned(), ip.to_owned()));
            assert(edits.deep_view() =~= outbound_edits(Some(ip@)));
        },
        None => {
            assert(edits.deep_view() =~= outbound_edits(None));
        },
    }
    edits
}

/// The protocol version of a request.
#[derive(Debug, Clone, Copy, PartialEq, Eq, Structural)]
pub enum HttpVersion {
    Http10,
    Http11,
    H2,
    H3,
}

/// One attempt: the request goes to `url`, over `version`, with
/// `header_edits` made to its headers and its method and body as they came.
#[derive(Debug, Clone)]
pub struct Attempt {
    pub url: String,
    pub version: HttpVersion,
    pub header_edits: Vec<HeaderEdit>,
}

/// What happened to the forwarder since its last action.
#[derive(Debug, Clone)]
pub enum Event {
    /// Nothing yet: the request is ready to go.
    Start,
    /// The target of the last attempt answered with this status.
    Response(u16),
    /// The last attempt failed before an answer came; the text says how.
    TransportError(String),
}

/// What the forwarder wants done next.
#[derive(Debug, Clone)]
pub enum Action {
    /// Make this attempt and report how it ended.
    Send(Attempt),
    /// Hand the response of the last attempt to the client as it is.
    Return,
    /// Answer the client with this error.
    Fail(VaneError),
    /// Nothing: the request was answered before.
    Finished,
}

/// The forwarder of one request.
#[derive(Debug, Clone)]
pub struct Failover {
    /// The targets of the route, the primary first.
    pub targets: Vec<String>,
    /// The path and query of the request.
    pub path_and_query: String,
    /// The client's address, where it is known.
    pub client_ip: Option<String>,
    /// Position of the target to try next.
    pub next: usize,
    /// The URL of the last attempt.
    pub in_flight: Option<String>,
    /// How the last target that failed did so.
    pub last_error: Option<String>,
    /// Whether the request was answered.
    pub finished: bool,
}

/// What a forwarder holds.
pub struct FailoverView {
    pub targets: Seq<Seq<char>>,
    pub path_and_query: Seq<char>,
    pub client_ip: Option<Seq<char>>,
    pub next: int,
    pub in_flight: Option<Seq<char>>,
    pub last_error: Option<Seq<char>>,
    pub finished: bool,
}

/// What an event holds.
pub enum EventView {
    Start,
    Response(u16),
    TransportError(Seq<char>),
}

/// What an action holds.
pub enum ActionView {
    Send(Seq<char>, HttpVersion, Seq<EditView>),
    Return,
    Fail(ErrorView),
    Finished,
}

/// What an optional text holds.
pub open spec fn text_view(text: Option<String>) -> Option<Seq<char>> {
    match text {
        Some(t) => Some(t@),
        None => None,
    }
}

impl View for Failover {
    type V = FailoverView;

    open spec fn view(&self) -> FailoverView {
        FailoverView {
            targets: self.targets.deep_view(),
            path_and_query: self.path_and_query@,
            client_ip: text_view(self.client_ip),
            next: self.next as int,
            in_flight: text_view(self.in_flight),
            last_error: text_view(self.last_error),
            finished: self.finished,
        }
    }
}

impl View for Event {
    type V = EventView;

    open spec fn view(&self) -> EventView {
        match self {
            Event::Start => EventView::Start,
            Event::Response(status) => EventView::Response(*status),
            Event::TransportError(text) => EventView::TransportError(text@),
        }
    }
}

impl View for Action {
    type V = ActionView;

    open spec fn view(&self) -> ActionView {
        match self {
            Action::Send(attempt) => ActionView::Send(
                attempt.url@,
                attempt.version,
                attempt.header_edits.deep_view(),
            ),
            Action::Return => ActionView::Return,
            Action::Fail(error) => ActionView::Fail(error@),
            Action::Finished => ActionView::Finished,
        }
    }
}

/// A status that makes the forwarder try the next target.
pub open spec fn is_server_error(status: u16) -> bool {
    status >= 500
}

/// The cause recorded for a URL that does not parse.
pub open spec fn invalid_url_cause(url: Seq<char>, error: Seq<char>) -> Seq<char> {
    "Invalid constructed target URL '"@ + url + "': "@ + error
}

/// The cause recorded for a target that answered with a server error.
pub open spec fn status_cause(url: Seq<char>, status: u16) -> Seq<char> {
    "Target '"@ + url + "' failed with status "@ + decimal(status as nat)
}

/// The cause reported where no target was tried.
pub open spec fn no_target_cause() -> Seq<char> {
    "No available backend targets could handle the request."@
}

/// The URL of target `k`.
pub open spec fn url_at(s: FailoverView, k: int) -> Seq<char> {
    target_url(s.targets[k], s.path_and_query)
}

/// Position of the first target at or after `from` whose URL parses, or the
/// number of targets where there is none.
pub open spec fn next_sendable(s: FailoverView, from: int) -> int
    decreases s.targets.len() - from,
{
    if from < 0 || from >= s.targets.len() {
        s.targets.len() as int
    } else if uri_parse_error(url_at(s, from)) is None {
        from
    } else {
        next_sendable(s, from + 1)
    }
}

/// The cause on record after the targets from `from` up to `upto` were
/// passed over because their URLs do not parse: that of the last of them.
pub open spec fn cause_after_skipping(s: FailoverView, from: int, upto: int) -> Option<Seq<char>> {
    if from < upto && 0 < upto <= s.targets.len() {
        match uri_parse_error(url_at(s, upto - 1)) {
            Some(error) => Some(invalid_url_cause(url_at(s, upto - 1), error)),
            None => s.last_error,
        }
    } else {
        s.last_error
    }
}

/// The forwarder after it took note of an event: a server error and a
/// failed attempt are put on record.
pub open spec fn noted(s: FailoverView, event: EventView) -> FailoverView {
    match event {
        EventView::Start => s,
        EventView::Response(status) => if is_server_error(status) {
            FailoverView {
                last_error: Some(
                    status_cause(
                        match s.in_flight {
                            Some(url) => url,
                            None => Seq::empty(),
                        },
                        status,
                    ),
                ),
                ..s
            }
        } else {
            s
        },
        EventView::TransportError(text) => FailoverView { last_error: Some(text), ..s },
    }
}

/// One step of the forwarder. A request that was answered stays answered. A
/// response that is no server error is returned as it is and ends the
/// request. Otherwise the next target whose URL parses is tried, over
/// HTTP/1.1 whatever the client spoke; where none is left the request fails
/// as a bad gateway, with the cause last recorded.
pub open spec fn stepped(s: FailoverView, event: EventView) -> (FailoverView, ActionView) {
    if s.finished {
        (s, ActionView::Finished)
    } else if event matches EventView::Response(status) && !is_server_error(status) {
        (FailoverView { finished: true, ..s }, ActionView::Return)
    } else {
        let t = noted(s, event);
        let from = if 0 <= t.next <= t.targets.len() {
            t.next
        } else {
            t.targets.len() as int
        };
        let k = next_sendable(t, from);
        let cause = cause_after_skipping(t, from, k);
        if k < t.targets.len() {
            (
                FailoverView {
                    next: k + 1,
                    in_flight: Some(url_at(t, k)),
                    last_error: cause,
                    ..t
                },
                ActionView::Send(url_at(t, k), HttpVersion::Http11, outbound_edits(t.client_ip)),
            )
        } else {
            (
                FailoverView { next: k, last_error: cause, finished: true, ..t },
                ActionView::Fail(
                    ErrorView::BadGateway(
                        match cause {
                            Some(text) => text,
                            None => no_target_cause(),
                        },
                    ),
                ),
            )
        }
    }
}

impl Failover {
    /// The forwarder of a request for `targets`. A request without path and
    /// query asks for `/`.
    pub fn new(targets: Vec<String>, path_and_query: Option<&str>, client_ip: Option<String>) -> (r:
        Failover)
        ensures
            r@ == (FailoverView {
                targets: targets.deep_view(),
                path_and_query: match path_and_query {
                    Some(text) => text@,
                    None => "/"@,
                },
                client_ip: text_view(client_ip),
                next: 0,
                in_flight: None,
                last_error: None,
                finished: false,
            }),
    {
        let path_and_query = match path_and_query {
            Some(text) => text.to_owned(),
            None => "/".to_owned(),
        };
        Failover {
            targets,
            path_and_query,
            client_ip,
            next: 0,
            in_flight: None,
            last_error: None,
            finished: false,
        }
    }

    /// Takes note of `event` and says what to do next.
    pub fn step(&mut self, event: Event) -> (action: Action)
        ensures
            final(self)@ == stepped(old(self)@, event@).0,
            action@ == stepped(old(self)@, event@).1,
    {
        if self.finished {
            return Action::Finished;
        }
        let ghost start = self@;
        let ghost seen = event@;
        match event {
            Event::Start => {},
            Event::Response(status) => {
                if status < 500 {
                    self.finished = true;
                    return Action::Return;
                }
                let url = match &self.in_flight {
                    Some(url) => url.as_str(),
                    None => "",
                };
                proof {
                    reveal_strlit("");
                    assert(""@ =~= Seq::<char>::empty());
                }
                let head = joined("Target '", url);
                let middle = joined(head.as_str(), "' failed with status ");
                let number = decimal_text(status as u64);
                let cause = joined(middle.as_str(), number.as_str());
                self.last_error = Some(cause);
            },
            Event::TransportError(text) => {
                self.last_error = Some(text);
            },
        }
        let ghost t = self@;
        if self.next > self.targets.len() {
            self.next = self.targets.len();
        }
        let ghost from = self.next as int;
        let n = self.targets.len();
        while self.next < n
            invariant
                start == old(self)@,
                seen == event@,
                !start.finished,
                !(seen matches EventView::Response(status) && !is_server_error(status)),
                t == noted(start, seen),
                from == if 0 <= t.next <= t.targets.len() {
                    t.next
                } else {
                    t.targets.len() as int
                },
                n == self.targets@.len(),
                from <= self.next <= n,
                0 <= from <= t.targets.len(),
                self@ == (FailoverView {
                    next: self.next as int,
                    last_error: cause_after_skipping(t, from, self.next as int),
                    ..t
                }),
                next_sendable(t, from) == next_sendable(t, self.next as int),
                forall|k: int| from <= k < self.next ==> uri_parse_error(url_at(t, k)) is Some,
            decreases n - self.next,
        {
            let k = self.next;
            assert(self.targets.deep_view()[k as int] == self.targets@[k as int]@);
            let url = build_target_url(self.targets[k].as_str(), self.path_and_query.as_str());
            assert(url@ == url_at(t, k as int));
            match check_uri(url.as_str()) {
                None => {
                    let client_ip = match &self.client_ip {
                        Some(ip) => Some(ip.as_str()),
                        None => None,
                    };
                    let attempt = Attempt {
                        url: url.clone(),
                        version: HttpVersion::Http11,
                        header_edits: outbound_header_edits(client_ip),
                    };
                    self.in_flight = Some(url);
                    self.next = k + 1;
                    assert(next_sendable(t, k as int) == k);
                    return Action::Send(attempt);
                },
                Some(error) => {
                    let head = joined("Invalid constructed target URL '", url.as_str());
                    let middle = joined(head.as_str(), "': ");
                    let cause = joined(middle.as_str(), error.as_str());
                    self.last_error = Some(cause);
                    self.next = k + 1;
                },
            }
        }
        self.finished = true;
        let cause = match &self.last_error {
            Some(text) => text.clone(),
            None => "No available backend targets could handle the request.".to_owned(),
        };
        Action::Fail(VaneError::BadGateway(cause))
    }
}

/// The start of forwarding: finds the route of the request and sets up the
/// forwarder for its targets, or says with which error the request ends.
pub fn proxy_handler(
    config: &AppConfig,
    host: &str,
    path: &str,
    path_and_query: Option<&str>,
    client_ip: Option<String>,
) -> (r: Result<Failover, VaneError>)
    ensures
        match r {
            Ok(forwarder) => {
                &&& config.domain(host@) matches Some(domain)
                &&& crate::routing::route_choice(domain.routes@, path@)
                    matches crate::routing::RouteChoice::Route(i)
                &&& forwarder@ == (FailoverView {
                    targets: domain.routes@[i].targets.deep_view(),
                    path_and_query: match path_and_query {
                        Some(text) => text@,
                        None => "/"@,
                    },
                    client_ip: text_view(client_ip),
                    next: 0,
                    in_flight: None,
                    last_error: None,
                    finished: false,
                })
            },
            Err(e) => match config.domain(host@) {
                None => e is HostNotFound,
                Some(domain) => match crate::routing::route_choice(domain.routes@, path@) {
                    crate::routing::RouteChoice::NoRoute => e is NoRouteFound,
                    crate::routing::RouteChoice::Ambiguous => e is AmbiguousRoute,
                    crate::routing::RouteChoice::Route(_) => false,
                },
            },
        },
{
    match resolve_targets(host, path, config) {
        Ok(targets) => Ok(Failover::new(targets, path_and_query, client_ip)),
        Err(e) => Err(e),
    }
}

/// Header hygiene: whatever address headers a request brought, an attempt
/// carries exactly one of them, the forwarded-for header with the client's
/// address, and it stands last.
pub proof fn lemma_attempt_names_the_client(headers: Seq<HeaderView>, ip: Seq<char>)
    ensures
        ({
            let out = edited_all(headers, outbound_edits(Some(ip)));
            &&& out.len() > 0
            &&& out.last() == (HeaderView { name: forwarded_for(), value: Some(ip) })
            &&& forall|i: int| 0 <= i < out.len() - 1 ==> !is_address_header(#[trigger] out[i])
        }),
{
    let edits = outbound_edits(Some(ip));
    let e1 = seq![EditView::Remove("x-real-ip"@)];
    let e2 = e1.push(EditView::Remove("x-forwarded-for"@));
    let e3 = e2.push(EditView::Remove("x-forwarded"@));
    let e4 = e3.push(EditView::Remove("forwarded-for"@));
    let e5 = e4.push(EditView::Remove("forwarded"@));
    let h0 = edited_all(headers, Seq::<EditView>::empty());
    assert(h0 == headers);
    assert(e1.drop_last() =~= Seq::<EditView>::empty());
    assert(e2.drop_last() =~= e1);
    assert(e3.drop_last() =~= e2);
    assert(e4.drop_last() =~= e3);
    assert(e5.drop_last() =~= e4);
    assert(edits.drop_last() =~= e5);
    let h1 = edited_all(headers, e1);
    let h2 = edited_all(headers, e2);
    let h3 = edited_all(headers, e3);
    let h4 = edited_all(headers, e4);
    let h5 = edited_all(headers, e5);
    assert(h1 == without(headers, "x-real-ip"@));
    assert(h2 == without(h1, "x-forwarded-for"@));
    assert(h3 == without(h2, "x-forwarded"@));
    assert(h4 == without(h3, "forwarded-for"@));
    assert(h5 == without(h4, "forwarded"@));
    lemma_without(headers, "x-real-ip"@, "x-real-ip"@);
    lemma_without(h1, "x-forwarded-for"@, "x-real-ip"@);
    lemma_without(h2, "x-forwarded"@, "x-real-ip"@);
    lemma_without(h2, "x-forwarded"@, "x-forwarded-for"@);
    lemma_without(h3, "forwarded-for"@, "x-real-ip"@);
    lemma_without(h3, "forwarded-for"@, "x-forwarded-for"@);
    lemma_without(h3, "forwarded-for"@, "x-forwarded"@);
    lemma_without(h4, "forwarded"@, "x-real-ip"@);
    lemma_without(h4, "forwarded"@, "x-forwarded-for"@);
    lemma_without(h4, "forwarded"@, "x-forwarded"@);
    lemma_without(h4, "forwarded"@, "forwarded-for"@);
    let h6 = without(h5, forwarded_for());
    lemma_without(h5, forwarded_for(), "x-real-ip"@);
    lemma_without(h5, forwarded_for(), "x-forwarded-for"@);
    lemma_without(h5, forwarded_for(), "x-forwarded"@);
    lemma_without(h5, forwarded_for(), "forwarded-for"@);
    lemma_without(h5, forwarded_for(), "forwarded"@);
    let out = edited_all(headers, edits);
    assert(out == h6.push(HeaderView { name: forwarded_for(), value: Some(ip) }));
    assert forall|i: int| 0 <= i < out.len() - 1 implies !is_address_header(#[trigger] out[i]) by {
        assert(out[i] == h6[i]);
    }
}

/// A response that is no server error, a client error among them, ends the
/// request: it is returned as it is and no further target is tried.
pub proof fn lemma_other_responses_are_returned(s: FailoverView, status: u16)
    requires
        !s.finished,
        status < 500,
    ensures
        stepped(s, EventView::Response(status)).1 == ActionView::Return,
        stepped(s, EventView::Response(status)).0.finished,
{
}

/// Once a request is answered, whatever is reported to its forwarder, no
/// target is tried any more.
pub proof fn lemma_answered_stays_answered(s: FailoverView, event: EventView)
    requires
        s.finished,
    ensures
        stepped(s, event) == (s, ActionView::Finished),
{
}

/// After a server error or a failed attempt, the forwarder tries the next
/// target whose URL parses, and fails as a bad gateway where none is left.
pub proof fn lemma_failures_move_on(s: FailoverView, event: EventView)
    requires
        !s.finished,
        0 <= s.next <= s.targets.len(),
        event matches EventView::Response(status) ==> is_server_error(status),
    ensures
        ({
            let k = next_sendable(noted(s, event), s.next);
            &&& s.next <= k <= s.targets.len()
            &&& forall|j: int|
                s.next <= j < k ==> uri_parse_error(#[trigger] url_at(s, j)) is Some
            &&& k < s.targets.len() ==> uri_parse_error(url_at(s, k)) is None && stepped(
                s,
                event,
            ).1 == ActionView::Send(
                url_at(s, k),
                HttpVersion::Http11,
                outbound_edits(s.client_ip),
            ) && stepped(
                s,
                event,
            ).0.next == k + 1 && !stepped(s, event).0.finished
            &&& k == s.targets.len() ==> (stepped(s, event).1 matches ActionView::Fail(e) && e
                is BadGateway) && stepped(s, event).0.finished
        }),
{
    let t = noted(s, event);
    lemma_next_sendable(t, s.next);
    let k = next_sendable(t, s.next);
    assert(t.targets == s.targets && t.path_and_query == s.path_and_query && t.next == s.next);
    assert forall|j: int| s.next <= j < k implies uri_parse_error(#[trigger] url_at(s, j))
        is Some by {
        assert(url_at(s, j) == url_at(t, j));
    }
    assert(url_at(s, k) == url_at(t, k));
}

/// The next sendable target lies at or after `from`, its URL parses, and
/// the URLs of the targets passed over do not.
pub proof fn lemma_next_sendable(s: FailoverView, from: int)
    requires
        0 <= from <= s.targets.len(),
    ensures
        from <= next_sendable(s, from) <= s.targets.len(),
        forall|j: int|
            from <= j < next_sendable(s, from) ==> uri_parse_error(#[trigger] url_at(s, j))
                is Some,
        next_sendable(s, from) < s.targets.len() ==> uri_parse_error(
            url_at(s, next_sendable(s, from)),
        ) is None,
    decreases s.targets.len() - from,
{
    if from < s.targets.len() && uri_parse_error(url_at(s, from)) is Some {
        lemma_next_sendable(s, from + 1);
    }
}

/// The actions of a forwarder that takes note of `events`, one after the other.
pub open spec fn actions_of(s: FailoverView, events: Seq<EventView>) -> Seq<ActionView>
    decreases events.len(),
{
    if events.len() == 0 {
        Seq::empty()
    } else {
        seq![stepped(s, events[0]).1] + actions_of(stepped(s, events[0]).0, events.drop_first())
    }
}

/// An action that answers the client.
pub open spec fn is_answer(action: ActionView) -> bool {
    action is Return || action is Fail
}

/// A forwarder whose request was answered does nothing more, whatever it
/// is told.
pub proof fn lemma_nothing_after_the_answer(s: FailoverView, events: Seq<EventView>)
    requires
        s.finished,
    ensures
        actions_of(s, events).len() == events.len(),
        forall|i: int|
            0 <= i < events.len() ==> (#[trigger] actions_of(s, events)[i]) == ActionView::Finished,
    decreases events.len(),
{
    if events.len() > 0 {
        lemma_nothing_after_the_answer(s, events.drop_first());
    }
}

/// A request is answered at most once: after the action that hands a
/// response back, or fails the request, no attempt is made and no second
/// answer is given.
pub proof fn lemma_one_answer_per_request(s: FailoverView, events: Seq<EventView>, i: int)
    requires
        0 <= i < events.len(),
        is_answer(actions_of(s, events)[i]),
    ensures
        actions_of(s, events).len() == events.len(),
        forall|j: int|
            i < j < events.len() ==> (#[trigger] actions_of(s, events)[j]) == ActionView::Finished,
    decreases events.len(),
{
    let after = stepped(s, events[0]).0;
    let rest = events.drop_first();
    lemma_actions_len(after, rest);
    if i == 0 {
        assert(after.finished);
        lemma_nothing_after_the_answer(after, rest);
        assert forall|j: int| 0 < j < events.len() implies (#[trigger] actions_of(s, events)[j])
            == ActionView::Finished by {
            assert(actions_of(s, events)[j] == actions_of(after, rest)[j - 1]);
        }
    } else {
        assert(actions_of(s, events)[i] == actions_of(after, rest)[i - 1]);
        lemma_one_answer_per_request(after, rest, i - 1);
        assert forall|j: int| i < j < events.len() implies (#[trigger] actions_of(s, events)[j])
            == ActionView::Finished by {
            assert(actions_of(s, events)[j] == actions_of(after, rest)[j - 1]);
        }
    }
}

/// A forwarder acts once on every event.
pub proof fn lemma_actions_len(s: FailoverView, events: Seq<EventView>)
    ensures
        actions_of(s, events).len() == events.len(),
    decreases events.len(),
{
    if events.len() > 0 {
        lemma_actions_len(stepped(s, events[0]).0, events.drop_first());
    }
}

/// No step goes back to a target that was passed: a target is tried at
/// most once.
pub proof fn lemma_targets_are_tried_in_order(s: FailoverView, event: EventView)
    requires
        0 <= s.next <= s.targets.len(),
    ensures
        s.next <= stepped(s, event).0.next <= s.targets.len(),
        stepped(s, event).1 is Send ==> stepped(s, event).0.next > s.next && stepped(
            s,
            event,
        ).0.in_flight == Some(url_at(s, stepped(s, event).0.next - 1)),
{
    let t = noted(s, event);
    lemma_next_sendable(t, s.next);
    assert(t.targets == s.targets && t.path_and_query == s.path_and_query && t.next == s.next);
    let k = next_sendable(t, s.next);
    assert(url_at(s, k) == url_at(t, k));
}

} // verus!
