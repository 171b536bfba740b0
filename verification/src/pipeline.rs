//! The layers of a listener put together: what becomes of a request before
//! it is forwarded, and which headers its response gets on the way back.

use crate::config::AppConfig;
use crate::error::VaneError;
use crate::message::{
    apply_edits, edited_all, lemma_edits_compose, page_response, BodyView, EditView, Header,
    HeaderEdit, HeaderView, RequestHead, ResponseBody, ResponseHead, ResponseView,
};
use crate::middleware::{
    alt_svc_handler, alt_svc_value, cors_handler, cors_plan, cors_response_edits, cors_stamp,
    filter_rejects, hsts_handler, hsts_value, http_request_handler, method_filter_handler,
    upgrade_location, wants_alt_svc, wants_hsts, CorsDecision, CorsPlan, HttpModeAction,
};
use crate::models::{DomainConfig, HttpOptions};
use crate::proxy::{proxy_handler, text_view, Failover, FailoverView};
use crate::ratelimit::{
    is_plan_for, rate_limit_handler, trace_follows, verdict, AppState, LimitOutcome,
};
use crate::routing::{route_choice, RouteChoice};
use crate::search::{first_match, lemma_first_match_is};
use vstd::prelude::*;

verus! {

/// The three listeners.
#[derive(Debug, Clone, Copy, PartialEq, Eq, Structural)]
pub enum Listener {
    /// Plain HTTP over TCP.
    Http,
    /// HTTP/1.1 and HTTP/2 over TLS.
    Https,
    /// HTTP/3 over QUIC.
    Http3,
}

/// The layers a request passes before it is routed.
#[derive(Debug, Clone, Copy, PartialEq, Eq, Structural)]
pub enum Layer {
    InjectHost,
    MethodFilter,
    Cors,
    RateLimit,
    HttpMode,
    AltSvc,
    Hsts,
}

/// The layers of a listener, the outermost first: it sees the request
/// first and the response last.
pub open spec fn layers_of(listener: Listener) -> Seq<Layer> {
    match listener {
        Listener::Http => seq![Layer::MethodFilter, Layer::Cors, Layer::RateLimit, Layer::HttpMode],
        Listener::Https => seq![
            Layer::InjectHost,
            Layer::MethodFilter,
            Layer::Cors,
            Layer::RateLimit,
            Layer::AltSvc,
            Layer::Hsts,
        ],
        Listener::Http3 => seq![
            Layer::InjectHost,
            Layer::MethodFilter,
            Layer::Cors,
            Layer::RateLimit,
            Layer::Hsts,
        ],
    }
}

/// The layers of a listener, the outermost first.
pub fn layers(listener: Listener) -> (r: Vec<Layer>)
    ensures
        r@ == layers_of(listener),
{
    let mut r: Vec<Layer> = Vec::new();
    match listener {
        Listener::Http => {
            r.push(Layer::MethodFilter);
            r.push(Layer::Cors);
            r.push(Layer::RateLimit);
            r.push(Layer::HttpMode);
        },
        Listener::Https => {
            r.push(Layer::InjectHost);
            r.push(Layer::MethodFilter);
            r.push(Layer::Cors);
            r.push(Layer::RateLimit);
            r.push(Layer::AltSvc);
            r.push(Layer::Hsts);
        },
        Listener::Http3 => {
            r.push(Layer::InjectHost);
            r.push(Layer::MethodFilter);
            r.push(Layer::Cors);
            r.push(Layer::RateLimit);
            r.push(Layer::Hsts);
        },
    }
    assert(r@ =~= layers_of(listener));
    r
}

/// The condition of being `layer`.
pub open spec fn is_layer(layer: Layer) -> spec_fn(Layer) -> bool {
    |other: Layer| other == layer
}

/// Position of `layer` among the layers of `listener`, or their number
/// where the listener has no such layer.
pub open spec fn layer_position(listener: Listener, layer: Layer) -> int {
    first_match(layers_of(listener), is_layer(layer))
}

/// Whether `listener` has `layer`.
pub open spec fn has_layer(listener: Listener, layer: Layer) -> bool {
    layer_position(listener, layer) < layers_of(listener).len()
}

/// On every listener the method filter stands outside the cross-origin
/// rules, and these outside the rate limit; host injection, where there is
/// one, stands outside them all; the plain-HTTP policy is on the plain-HTTP
/// listener alone, and the alternative service on the TLS listener over TCP
/// alone.
pub proof fn lemma_layer_order(listener: Listener)
    ensures
        has_layer(listener, Layer::MethodFilter),
        has_layer(listener, Layer::Cors),
        has_layer(listener, Layer::RateLimit),
        layer_position(listener, Layer::MethodFilter) < layer_position(listener, Layer::Cors)
            < layer_position(listener, Layer::RateLimit),
        has_layer(listener, Layer::InjectHost) <==> listener != Listener::Http,
        has_layer(listener, Layer::InjectHost) ==> layer_position(listener, Layer::InjectHost)
            == 0,
        has_layer(listener, Layer::HttpMode) <==> listener == Listener::Http,
        has_layer(listener, Layer::AltSvc) <==> listener == Listener::Https,
        has_layer(listener, Layer::Hsts) <==> listener != Listener::Http,
{
    let all = layers_of(listener);
    let first: int = if listener == Listener::Http {
        0
    } else {
        1
    };
    lemma_first_match_is(all, is_layer(Layer::MethodFilter), first);
    lemma_first_match_is(all, is_layer(Layer::Cors), first + 1);
    lemma_first_match_is(all, is_layer(Layer::RateLimit), first + 2);
    match listener {
        Listener::Http => {
            lemma_first_match_is(all, is_layer(Layer::InjectHost), 4);
            lemma_first_match_is(all, is_layer(Layer::HttpMode), 3);
            lemma_first_match_is(all, is_layer(Layer::AltSvc), 4);
            lemma_first_match_is(all, is_layer(Layer::Hsts), 4);
        },
        Listener::Https => {
            lemma_first_match_is(all, is_layer(Layer::InjectHost), 0);
            lemma_first_match_is(all, is_layer(Layer::HttpMode), 6);
            lemma_first_match_is(all, is_layer(Layer::AltSvc), 4);
            lemma_first_match_is(all, is_layer(Layer::Hsts), 5);
        },
        Listener::Http3 => {
            lemma_first_match_is(all, is_layer(Layer::InjectHost), 0);
            lemma_first_match_is(all, is_layer(Layer::HttpMode), 5);
            lemma_first_match_is(all, is_layer(Layer::AltSvc), 5);
            lemma_first_match_is(all, is_layer(Layer::Hsts), 4);
        },
    }
}

/// What the layers in front of the rate limit make of a request.
#[derive(Debug, Clone)]
pub enum Admission {
    /// The request ends here, with this response.
    Respond(ResponseHead),
    /// The request goes on to the rate limit; its response gets this
    /// origin stamped on it, where one is given.
    Proceed(Option<String>),
}

/// What an admission holds.
pub enum AdmissionView {
    Respond(ResponseView),
    Proceed(Option<Seq<char>>),
}

impl View for Admission {
    type V = AdmissionView;

    open spec fn view(&self) -> AdmissionView {
        match self {
            Admission::Respond(response) => AdmissionView::Respond(response@),
            Admission::Proceed(origin) => AdmissionView::Proceed(text_view(*origin)),
        }
    }
}

/// The admission of a request. Without a host it is a bad request. The
/// method filter comes first: what it refuses is answered as method not
/// allowed, whatever the cross-origin rules would say. Then the cross-origin
/// rules answer a preflight or let the request go on.
pub open spec fn admission_of(
    domain: Option<DomainConfig>,
    host_known: bool,
    method: Seq<char>,
    headers: Seq<HeaderView>,
) -> AdmissionView {
    if !host_known {
        AdmissionView::Respond(
            page_response(
                VaneError::HostNotFound.status(),
                VaneError::HostNotFound.default_message_text(),
            ),
        )
    } else if filter_rejects(domain, method) {
        AdmissionView::Respond(
            page_response(
                VaneError::MethodNotAllowed.status(),
                VaneError::MethodNotAllowed.default_message_text(),
            ),
        )
    } else {
        match cors_plan(domain, method, headers) {
            CorsPlan::Preflight(granted) => AdmissionView::Respond(
                ResponseView { status: 200, headers: granted, body: BodyView::Empty },
            ),
            CorsPlan::Forward(origin) => AdmissionView::Proceed(origin),
        }
    }
}

/// Runs the method filter and the cross-origin rules on a request, for the
/// host that it names.
pub fn screen(config: &AppConfig, host: Option<&str>, req: &RequestHead) -> (r: Admission)
    ensures
        r@ == admission_of(
            match host {
                Some(h) => config.domain(h@),
                None => None,
            },
            host is Some,
            req.method@,
            req.headers.deep_view(),
        ),
{
    let host = match host {
        Some(h) => h,
        None => {
            return Admission::Respond(ResponseHead::for_error(&VaneError::HostNotFound));
        },
    };
    let domain = config.lookup(host);
    if method_filter_handler(domain, req.method.as_str()) {
        return Admission::Respond(ResponseHead::for_error(&VaneError::MethodNotAllowed));
    }
    match cors_handler(domain, req) {
        CorsDecision::Preflight(response) => Admission::Respond(response),
        CorsDecision::Forward(origin) => Admission::Proceed(origin),
    }
}

/// Method filter before cross-origin rules: a request whose method the
/// domain does not accept is answered with 405, also where it is a
/// preflight that the cross-origin rules would answer themselves.
pub proof fn lemma_method_filter_comes_first(
    domain: Option<DomainConfig>,
    method: Seq<char>,
    headers: Seq<HeaderView>,
)
    requires
        filter_rejects(domain, method),
    ensures
        admission_of(domain, true, method, headers) matches AdmissionView::Respond(response)
            && response.status == 405,
{
}

/// The headers that the layers behind the rate limit set on a response: on
/// the TLS listeners the strict-transport header, and on the TLS listener
/// over TCP the alternative service after it.
pub open spec fn inner_edits(listener: Listener, domain: Option<DomainConfig>, https_port: u16)
    -> Seq<EditView> {
    let hsts = if listener != Listener::Http && wants_hsts(domain) {
        seq![EditView::Insert("strict-transport-security"@, hsts_value())]
    } else {
        Seq::empty()
    };
    let alt_svc = if listener == Listener::Https && wants_alt_svc(domain) {
        seq![EditView::Insert("alt-svc"@, alt_svc_value(https_port))]
    } else {
        Seq::empty()
    };
    hsts + alt_svc
}

/// The changes to a response that comes from the router or from a target:
/// those of the layers behind the rate limit, then the cross-origin stamp.
pub open spec fn response_edits_of(
    listener: Listener,
    domain: Option<DomainConfig>,
    https_port: u16,
    allow_origin: Option<Seq<char>>,
) -> Seq<EditView> {
    inner_edits(listener, domain, https_port) + cors_stamp(allow_origin)
}

/// The changes to a response that comes from the router or from a target.
pub fn response_edits(
    listener: Listener,
    domain: Option<&DomainConfig>,
    https_port: u16,
    allow_origin: Option<&str>,
) -> (edits: Vec<HeaderEdit>)
    ensures
        edits.deep_view() == response_edits_of(
            listener,
            match domain {
                Some(d) => Some(*d),
                None => None,
            },
            https_port,
            match allow_origin {
                Some(origin) => Some(origin@),
                None => None,
            },
        ),
{
    let mut edits: Vec<HeaderEdit> = Vec::new();
    assert(edits.deep_view() =~= Seq::<EditView>::empty());
    match listener {
        Listener::Http => {},
        _ => {
            if let Some(edit) = hsts_handler(domain) {
                let ghost before = edits.deep_view();
                edits.push(edit);
                assert(edits.deep_view() =~= before.push(edit@));
            }
        },
    }
    match listener {
        Listener::Https => {
            if let Some(edit) = alt_svc_handler(domain, https_port) {
                let ghost before = edits.deep_view();
                edits.push(edit);
                assert(edits.deep_view() =~= before.push(edit@));
            }
        },
        _ => {},
    }
    let ghost inner = edits.deep_view();
    assert(inner =~= inner_edits(
        listener,
        match domain {
            Some(d) => Some(*d),
            None => None,
        },
        https_port,
    ));
    let mut stamp = cors_response_edits(allow_origin);
    let ghost stamped = stamp.deep_view();
    edits.append(&mut stamp);
    assert(edits.deep_view() =~= inner + stamped);
    edits
}

/// `response` with `edits` made to its headers.
pub open spec fn with_edits(response: ResponseView, edits: Seq<EditView>) -> ResponseView {
    ResponseView { headers: edited_all(response.headers, edits), ..response }
}

/// Makes `edits` to the headers of `response`.
pub fn decorate(response: ResponseHead, edits: &Vec<HeaderEdit>) -> (r: ResponseHead)
    ensures
        r@ == with_edits(response@, edits.deep_view()),
{
    let mut response = response;
    apply_edits(&mut response.headers, edits);
    response
}

/// What becomes of a request that was screened.
#[derive(Debug, Clone)]
pub enum Verdict {
    /// The request ends here, with this response, complete with the headers
    /// of the layers it passes on its way back.
    Respond(ResponseHead),
    /// The request is forwarded; the response that comes back, or the error
    /// that the forwarder ends with, gets these changes.
    Forward(Failover, Vec<HeaderEdit>),
}

/// What a verdict holds.
pub enum VerdictView {
    Respond(ResponseView),
    Forward(FailoverView, Seq<EditView>),
}

impl View for Verdict {
    type V = VerdictView;

    open spec fn view(&self) -> VerdictView {
        match self {
            Verdict::Respond(response) => VerdictView::Respond(response@),
            Verdict::Forward(forwarder, edits) => VerdictView::Forward(
                forwarder@,
                edits.deep_view(),
            ),
        }
    }
}

/// The response that redirects to `location`.
pub open spec fn redirect_response(location: Seq<char>) -> ResponseView {
    ResponseView {
        status: 301,
        headers: seq![HeaderView { name: "location"@, value: Some(location) }],
        body: BodyView::Empty,
    }
}

/// The text sent with a refusal of plain HTTP.
pub open spec fn upgrade_required_text() -> Seq<char> {
    "HTTP is not supported for this domain. Please use HTTPS."@
}

/// The domain whose routes the router reads.
pub open spec fn routed_domain(config: AppConfig, route_host: Option<Seq<char>>) -> Option<
    DomainConfig,
> {
    match route_host {
        Some(name) => config.domain(name),
        None => None,
    }
}

/// The plain-HTTP policy in force: that of the domain, and to allow where
/// the host has no configuration.
pub open spec fn http_policy(domain: Option<DomainConfig>) -> HttpOptions {
    match domain {
        Some(d) => d.http_options,
        None => HttpOptions::Allow,
    }
}

/// What becomes of a screened request, given whether the rate limit let
/// it through. A request that it refused is answered as rate limited. On
/// the plain-HTTP listener the domain's policy may then refuse the request
/// or redirect it. Then the router finds the targets, or the error that
/// answers the request. A response made behind the rate limit carries the
/// headers of the layers there; every response carries the cross-origin
/// stamp. The layers go by `host`, the host as the request names it; the
/// router goes by `route_host`, the name in the host header without its
/// port, and answers a request that has none as a bad request.
pub open spec fn verdict_of(
    listener: Listener,
    config: AppConfig,
    host: Seq<char>,
    route_host: Option<Seq<char>>,
    path: Seq<char>,
    path_and_query: Option<Seq<char>>,
    client_ip: Seq<char>,
    allow_origin: Option<Seq<char>>,
    allowed: bool,
) -> VerdictView {
    let domain = config.domain(host);
    let stamp = cors_stamp(allow_origin);
    let edits = response_edits_of(listener, domain, config.https_port, allow_origin);
    if !allowed {
        VerdictView::Respond(
            with_edits(
                page_response(
                    VaneError::RateLimited.status(),
                    VaneError::RateLimited.default_message_text(),
                ),
                stamp,
            ),
        )
    } else if listener == Listener::Http && http_policy(domain) == HttpOptions::Reject {
        VerdictView::Respond(with_edits(page_response(426, upgrade_required_text()), stamp))
    } else if listener == Listener::Http && http_policy(domain) == HttpOptions::Upgrade {
        VerdictView::Respond(
            with_edits(redirect_response(upgrade_location(host, path_and_query)), stamp),
        )
    } else {
        match routed_domain(config, route_host) {
            None => VerdictView::Respond(
                with_edits(
                    page_response(
                        VaneError::HostNotFound.status(),
                        VaneError::HostNotFound.default_message_text(),
                    ),
                    edits,
                ),
            ),
            Some(d) => match route_choice(d.routes@, path) {
                RouteChoice::NoRoute => VerdictView::Respond(
                    with_edits(
                        page_response(
                            VaneError::NoRouteFound.status(),
                            VaneError::NoRouteFound.default_message_text(),
                        ),
                        edits,
                    ),
                ),
                RouteChoice::Ambiguous => VerdictView::Respond(
                    with_edits(
                        page_response(
                            VaneError::AmbiguousRoute.status(),
                            VaneError::AmbiguousRoute.default_message_text(),
                        ),
                        edits,
                    ),
                ),
                RouteChoice::Route(i) => VerdictView::Forward(
                    FailoverView {
                        targets: d.routes@[i].targets.deep_view(),
                        path_and_query: match path_and_query {
                            Some(text) => text,
                            None => "/"@,
                        },
                        client_ip: Some(client_ip),
                        next: 0,
                        in_flight: None,
                        last_error: None,
                        finished: false,
                    },
                    edits,
                ),
            },
        }
    }
}

/// Decides what becomes of a screened request, given whether the rate
/// limit let it through.
pub fn dispatch_after_limits(
    listener: Listener,
    config: &AppConfig,
    host: &str,
    route_host: Option<&str>,
    req: &RequestHead,
    client_ip: &String,
    allow_origin: Option<&str>,
    allowed: bool,
) -> (r: Verdict)
    ensures
        r@ == verdict_of(
            listener,
            *config,
            host@,
            match route_host {
                Some(name) => Some(name@),
                None => None,
            },
            req.path@,
            text_view(req.path_and_query),
            client_ip@,
            match allow_origin {
                Some(origin) => Some(origin@),
                None => None,
            },
            allowed,
        ),
{
    let domain = config.lookup(host);
    let stamp = cors_response_edits(allow_origin);
    if !allowed {
        return Verdict::Respond(
            decorate(ResponseHead::for_error(&VaneError::RateLimited), &stamp),
        );
    }
    let path_and_query = match &req.path_and_query {
        Some(text) => Some(text.as_str()),
        None => None,
    };
    match listener {
        Listener::Http => match http_request_handler(domain, host, path_and_query) {
            HttpModeAction::Forward => {},
            HttpModeAction::Reject => {
                let page = ResponseHead::page(
                    426,
                    "HTTP is not supported for this domain. Please use HTTPS.",
                );
                return Verdict::Respond(decorate(page, &stamp));
            },
            HttpModeAction::Redirect(location) => {
                let mut headers: Vec<Header> = Vec::new();
                let ghost target = location@;
                headers.push(Header { name: "location".to_owned(), value: Some(location) });
                let response = ResponseHead { status: 301, headers, body: ResponseBody::Empty };
                assert(response@.headers =~= redirect_response(target).headers);
                return Verdict::Respond(decorate(response, &stamp));
            },
        },
        _ => {},
    }
    let edits = response_edits(listener, domain, config.https_port, allow_origin);
    let route_host = match route_host {
        Some(name) => name,
        None => {
            return Verdict::Respond(
                decorate(ResponseHead::for_error(&VaneError::HostNotFound), &edits),
            );
        },
    };
    match proxy_handler(
        config,
        route_host,
        req.path.as_str(),
        path_and_query,
        Some(client_ip.clone()),
    ) {
        Ok(forwarder) => Verdict::Forward(forwarder, edits),
        Err(e) => Verdict::Respond(decorate(ResponseHead::for_error(&e), &edits)),
    }
}

/// How a request that was screened ended: the verdict, and what the rate
/// limit did on the way.
pub struct Dispatch {
    pub verdict: Verdict,
    pub limits: LimitOutcome,
}

/// Takes a screened request through the rate limit, behind the shield,
/// and decides what becomes of it.
pub fn dispatch(
    listener: Listener,
    state: &AppState,
    host: &str,
    route_host: Option<&str>,
    req: &RequestHead,
    client_ip: &String,
    allow_origin: Option<&str>,
    shield_ok: bool,
) -> (r: Dispatch)
    ensures
        r.limits.trace.shield == shield_ok,
        is_plan_for(*state, host@, req.path@, r.limits.plan),
        trace_follows(r.limits.plan, r.limits.trace),
        r.limits.allowed == verdict(r.limits.trace),
        r.verdict@ == verdict_of(
            listener,
            state.config,
            host@,
            match route_host {
                Some(name) => Some(name@),
                None => None,
            },
            req.path@,
            text_view(req.path_and_query),
            client_ip@,
            match allow_origin {
                Some(origin) => Some(origin@),
                None => None,
            },
            r.limits.allowed,
        ),
{
    let limits = rate_limit_handler(state, host, req.path.as_str(), client_ip, shield_ok);
    let verdict = dispatch_after_limits(
        listener,
        &state.config,
        host,
        route_host,
        req,
        client_ip,
        allow_origin,
        limits.allowed,
    );
    Dispatch { verdict, limits }
}

/// What the layers of a listener know of a request: where it arrived, what
/// it asks for, and whether the rate limit lets it through.
pub struct Passage {
    pub listener: Listener,
    pub config: AppConfig,
    pub host: Seq<char>,
    pub route_host: Option<Seq<char>>,
    pub method: Seq<char>,
    pub path: Seq<char>,
    pub path_and_query: Option<Seq<char>>,
    pub headers: Seq<HeaderView>,
    pub client_ip: Seq<char>,
    pub allowed: bool,
}

/// The response with which a layer answers a request by itself, where it
/// does: the method filter what it refuses, the cross-origin rules a
/// preflight, the rate limit what it does not let through, the plain-HTTP
/// policy what it refuses or redirects. Any other request it hands on to
/// the layers inside it.
pub open spec fn layer_answer(layer: Layer, p: Passage) -> Option<ResponseView> {
    let domain = p.config.domain(p.host);
    match layer {
        Layer::MethodFilter => if filter_rejects(domain, p.method) {
            Some(
                page_response(
                    VaneError::MethodNotAllowed.status(),
                    VaneError::MethodNotAllowed.default_message_text(),
                ),
            )
        } else {
            None
        },
        Layer::Cors => match cors_plan(domain, p.method, p.headers) {
            CorsPlan::Preflight(granted) => Some(
                ResponseView { status: 200, headers: granted, body: BodyView::Empty },
            ),
            CorsPlan::Forward(_) => None,
        },
        Layer::RateLimit => if p.allowed {
            None
        } else {
            Some(
                page_response(
                    VaneError::RateLimited.status(),
                    VaneError::RateLimited.default_message_text(),
                ),
            )
        },
        Layer::HttpMode => match http_policy(domain) {
            HttpOptions::Allow => None,
            HttpOptions::Reject => Some(page_response(426, upgrade_required_text())),
            HttpOptions::Upgrade => Some(
                redirect_response(upgrade_location(p.host, p.path_and_query)),
            ),
        },
        Layer::InjectHost => None,
        Layer::AltSvc => None,
        Layer::Hsts => None,
    }
}

/// The changes that a layer makes to a response on its way out from the
/// layers inside it.
pub open spec fn layer_edits(layer: Layer, p: Passage) -> Seq<EditView> {
    let domain = p.config.domain(p.host);
    match layer {
        Layer::Cors => match cors_plan(domain, p.method, p.headers) {
            CorsPlan::Forward(origin) => cors_stamp(origin),
            CorsPlan::Preflight(_) => Seq::empty(),
        },
        Layer::Hsts => if wants_hsts(domain) {
            seq![EditView::Insert("strict-transport-security"@, hsts_value())]
        } else {
            Seq::empty()
        },
        Layer::AltSvc => if wants_alt_svc(domain) {
            seq![EditView::Insert("alt-svc"@, alt_svc_value(p.config.https_port))]
        } else {
            Seq::empty()
        },
        _ => Seq::empty(),
    }
}

/// The response that leaves `layers`, the outermost first, where `inner`
/// is the response of what they wrap: the first layer answers the request
/// itself, or hands it on and makes its changes to what comes back.
pub open spec fn through(layers: Seq<Layer>, p: Passage, inner: ResponseView) -> ResponseView
    decreases layers.len(),
{
    if layers.len() == 0 {
        inner
    } else {
        match layer_answer(layers[0], p) {
            Some(response) => response,
            None => with_edits(through(layers.drop_first(), p, inner), layer_edits(layers[0], p)),
        }
    }
}

/// The response of the router and the forwarder behind it: the page of the
/// error where routing fails, else `upstream`, what the forwarder hands
/// back.
pub open spec fn routed_response(p: Passage, upstream: ResponseView) -> ResponseView {
    match routed_domain(p.config, p.route_host) {
        None => page_response(
            VaneError::HostNotFound.status(),
            VaneError::HostNotFound.default_message_text(),
        ),
        Some(d) => match route_choice(d.routes@, p.path) {
            RouteChoice::NoRoute => page_response(
                VaneError::NoRouteFound.status(),
                VaneError::NoRouteFound.default_message_text(),
            ),
            RouteChoice::Ambiguous => page_response(
                VaneError::AmbiguousRoute.status(),
                VaneError::AmbiguousRoute.default_message_text(),
            ),
            RouteChoice::Route(_) => upstream,
        },
    }
}

/// The response that `screen` and `dispatch` lead to for a request that
/// names its host: what they answer themselves, or `upstream` with the
/// changes that the verdict carries.
pub open spec fn pipeline_response(p: Passage, upstream: ResponseView) -> ResponseView {
    match admission_of(p.config.domain(p.host), true, p.method, p.headers) {
        AdmissionView::Respond(response) => response,
        AdmissionView::Proceed(origin) => match verdict_of(
            p.listener,
            p.config,
            p.host,
            p.route_host,
            p.path,
            p.path_and_query,
            p.client_ip,
            origin,
            p.allowed,
        ) {
            VerdictView::Respond(response) => response,
            VerdictView::Forward(_, edits) => with_edits(upstream, edits),
        },
    }
}

/// Changes made one series after the other are the changes of both series
/// in one; no changes leave a response as it is.
pub proof fn lemma_with_edits(response: ResponseView, first: Seq<EditView>, then: Seq<EditView>)
    ensures
        with_edits(with_edits(response, first), then) == with_edits(response, first + then),
        with_edits(response, Seq::empty()) == response,
{
    lemma_edits_compose(response.headers, first, then);
}

/// `screen` and `dispatch` are the layers of the listener in their order:
/// for every listener and every request that names its host, what they lead
/// to is the response that leaves the listener's layers, wrapped around
/// the router and the forwarder.
pub proof fn lemma_layers_make_the_pipeline(p: Passage, upstream: ResponseView)
    ensures
        through(layers_of(p.listener), p, routed_response(p, upstream)) == pipeline_response(
            p,
            upstream,
        ),
{
    let inner = routed_response(p, upstream);
    let domain = p.config.domain(p.host);
    let none = Seq::<EditView>::empty();
    let hsts = layer_edits(Layer::Hsts, p);
    let alt = layer_edits(Layer::AltSvc, p);
    let stamp = layer_edits(Layer::Cors, p);
    let all = layers_of(p.listener);
    match p.listener {
        Listener::Http => {
            let l1 = seq![Layer::Cors, Layer::RateLimit, Layer::HttpMode];
            let l2 = seq![Layer::RateLimit, Layer::HttpMode];
            let l3 = seq![Layer::HttpMode];
            assert(all.drop_first() =~= l1);
            assert(l1.drop_first() =~= l2);
            assert(l2.drop_first() =~= l3);
            assert(l3.drop_first() =~= Seq::<Layer>::empty());
            let t3 = through(l3, p, inner);
            let t2 = through(l2, p, inner);
            let t1 = through(l1, p, inner);
            assert(through(Seq::<Layer>::empty(), p, inner) == inner);
            lemma_with_edits(inner, none, none);
            lemma_with_edits(t3, none, none);
            lemma_with_edits(t2, none, stamp);
            lemma_with_edits(t1, none, none);
            assert(t3 == match layer_answer(Layer::HttpMode, p) {
                Some(response) => response,
                None => inner,
            });
            assert(t2 == match layer_answer(Layer::RateLimit, p) {
                Some(response) => response,
                None => t3,
            });
            assert(t1 == match layer_answer(Layer::Cors, p) {
                Some(response) => response,
                None => with_edits(t2, stamp),
            });
            assert(through(all, p, inner) == match layer_answer(Layer::MethodFilter, p) {
                Some(response) => response,
                None => t1,
            });
            assert(none + stamp =~= stamp);
            assert(inner_edits(p.listener, domain, p.config.https_port) =~= none);
        },
        Listener::Https => {
            let l1 = seq![
                Layer::MethodFilter,
                Layer::Cors,
                Layer::RateLimit,
                Layer::AltSvc,
                Layer::Hsts,
            ];
            let l2 = seq![Layer::Cors, Layer::RateLimit, Layer::AltSvc, Layer::Hsts];
            let l3 = seq![Layer::RateLimit, Layer::AltSvc, Layer::Hsts];
            let l4 = seq![Layer::AltSvc, Layer::Hsts];
            let l5 = seq![Layer::Hsts];
            assert(all.drop_first() =~= l1);
            assert(l1.drop_first() =~= l2);
            assert(l2.drop_first() =~= l3);
            assert(l3.drop_first() =~= l4);
            assert(l4.drop_first() =~= l5);
            assert(l5.drop_first() =~= Seq::<Layer>::empty());
            let t5 = through(l5, p, inner);
            let t4 = through(l4, p, inner);
            let t3 = through(l3, p, inner);
            let t2 = through(l2, p, inner);
            let t1 = through(l1, p, inner);
            assert(through(Seq::<Layer>::empty(), p, inner) == inner);
            assert(t5 == with_edits(inner, hsts));
            assert(t4 == with_edits(t5, alt));
            lemma_with_edits(inner, hsts, alt);
            lemma_with_edits(t4, none, none);
            assert(t3 == match layer_answer(Layer::RateLimit, p) {
                Some(response) => response,
                None => t4,
            });
            lemma_with_edits(inner, hsts + alt, stamp);
            assert(t2 == match layer_answer(Layer::Cors, p) {
                Some(response) => response,
                None => with_edits(t3, stamp),
            });
            lemma_with_edits(t2, none, none);
            assert(t1 == match layer_answer(Layer::MethodFilter, p) {
                Some(response) => response,
                None => t2,
            });
            lemma_with_edits(t1, none, none);
            assert(through(all, p, inner) == t1);
            assert(inner_edits(p.listener, domain, p.config.https_port) =~= hsts + alt);
        },
        Listener::Http3 => {
            let l1 = seq![Layer::MethodFilter, Layer::Cors, Layer::RateLimit, Layer::Hsts];
            let l2 = seq![Layer::Cors, Layer::RateLimit, Layer::Hsts];
            let l3 = seq![Layer::RateLimit, Layer::Hsts];
            let l4 = seq![Layer::Hsts];
            assert(all.drop_first() =~= l1);
            assert(l1.drop_first() =~= l2);
            assert(l2.drop_first() =~= l3);
            assert(l3.drop_first() =~= l4);
            assert(l4.drop_first() =~= Seq::<Layer>::empty());
            let t4 = through(l4, p, inner);
            let t3 = through(l3, p, inner);
            let t2 = through(l2, p, inner);
            let t1 = through(l1, p, inner);
            assert(through(Seq::<Layer>::empty(), p, inner) == inner);
            assert(t4 == with_edits(inner, hsts));
            lemma_with_edits(t4, none, none);
            assert(t3 == match layer_answer(Layer::RateLimit, p) {
                Some(response) => response,
                None => t4,
            });
            lemma_with_edits(inner, hsts, stamp);
            assert(t2 == match layer_answer(Layer::Cors, p) {
                Some(response) => response,
                None => with_edits(t3, stamp),
            });
            lemma_with_edits(t2, none, none);
            assert(t1 == match layer_answer(Layer::MethodFilter, p) {
                Some(response) => response,
                None => t2,
            });
            lemma_with_edits(t1, none, none);
            assert(through(all, p, inner) == t1);
            assert(hsts + none =~= hsts);
            assert(inner_edits(p.listener, domain, p.config.https_port) =~= hsts);
        },
    }
}

} // verus!
