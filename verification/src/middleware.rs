//! The request policy of a domain, layer by layer: host injection, method
//! filter, cross-origin rules, plain-HTTP policy, and the headers added to
//! responses.

use crate::message::{
    find_header, has_header, header_text, text_of, EditView, Header, HeaderEdit, HeaderView,
    RequestHead, ResponseBody, ResponseHead,
};
use crate::models::{CorsConfig, DomainConfig, HttpOptions};
use crate::text::{
    joined, decimal, decimal_text, eq_ignore_ascii_case, eq_ignoring_ascii_case, same_text, split,
    split_on, to_uppercase, trim, trimmed, upper_case,
};
use vstd::prelude::*;

verus! {

/// A character that may stand in an HTTP token: a letter, a digit, or one
/// of ``! # $ % & ' * + - . ^ _ ` | ~``.
pub open spec fn is_token_char(c: char) -> bool {
    ||| 'a' <= c <= 'z'
    ||| 'A' <= c <= 'Z'
    ||| '0' <= c <= '9'
    ||| c == '!'
    ||| c == '#'
    ||| c == '$'
    ||| c == '%'
    ||| c == '&'
    ||| c == '\''
    ||| c == '*'
    ||| c == '+'
    ||| c == '-'
    ||| c == '.'
    ||| c == '^'
    ||| c == '_'
    ||| c == '`'
    ||| c == '|'
    ||| c == '~'
}

/// A method name: one or more token characters.
pub open spec fn is_method_token(s: Seq<char>) -> bool {
    s.len() > 0 && forall|i: int| 0 <= i < s.len() ==> is_token_char(#[trigger] s[i])
}

/// `http::Method::from_bytes` on the bytes of `s`: it accepts exactly the
/// non-empty strings of token characters.
#[verifier::external_body]
fn parses_as_method(s: &str) -> (ok: bool)
    ensures
        ok == is_method_token(s@),
{
    http::Method::from_bytes(s.as_bytes()).is_ok()
}

/// The text `*`.
pub open spec fn is_star(s: Seq<char>) -> bool {
    s == seq!['*']
}

fn text_is_star(s: &str) -> (r: bool)
    ensures
        r == is_star(s@),
{
    let r = s.unicode_len() == 1 && s.get_char(0) == '*';
    if r {
        assert(s@ =~= seq!['*']);
    }
    r
}

/// The method that an entry of an allow-list names: the entry without the
/// whitespace around it, in upper case.
pub open spec fn listed_method(entry: Seq<char>) -> Seq<char> {
    upper_case(trimmed(entry))
}

/// Entry `i` of the allow-list `allow` names `method`, and a method it is.
pub open spec fn allows_at(allow: Seq<char>, method: Seq<char>, i: int) -> bool {
    let entries = split(trimmed(allow), ',');
    0 <= i < entries.len() && is_method_token(listed_method(entries[i])) && listed_method(
        entries[i],
    ) == method
}

/// Whether the allow-list `allow` lets `method` through: it is `*`, or one
/// of its comma-separated entries names the method.
pub open spec fn method_permitted(allow: Seq<char>, method: Seq<char>) -> bool {
    is_star(trimmed(allow)) || exists|i: int| allows_at(allow, method, i)
}

/// Whether the allow-list `allow` lets `method` through.
pub fn method_allowed(allow: &str, method: &str) -> (r: bool)
    ensures
        r == method_permitted(allow@, method@),
{
    let allowed = trim(allow);
    if text_is_star(allowed) {
        return true;
    }
    let entries = split_on(allowed, ',');
    let mut i: usize = 0;
    while i < entries.len()
        invariant
            i <= entries@.len(),
            entries.deep_view() == split(trimmed(allow@), ','),
            forall|k: int| 0 <= k < i ==> !allows_at(allow@, method@, k),
        decreases entries.len() - i,
    {
        assert(entries.deep_view()[i as int] == entries[i as int]@);
        let name = to_uppercase(trim(entries[i].as_str()));
        if parses_as_method(name.as_str()) && same_text(name.as_str(), method) {
            assert(allows_at(allow@, method@, i as int));
            return true;
        }
        i = i + 1;
    }
    false
}

/// Whether the method filter of `domain` refuses `method`. A host without
/// configuration, or a domain without a filter, refuses nothing.
pub open spec fn filter_rejects(domain: Option<DomainConfig>, method: Seq<char>) -> bool {
    domain matches Some(d) && d.methods matches Some(m) && !method_permitted(m.allow@, method)
}

/// The method filter: whether the request's method is refused.
pub fn method_filter_handler(domain: Option<&DomainConfig>, method: &str) -> (rejected: bool)
    ensures
        rejected == filter_rejects(
            match domain {
                Some(d) => Some(*d),
                None => None,
            },
            method@,
        ),
{
    match domain {
        Some(d) => match &d.methods {
            Some(m) => !method_allowed(m.allow.as_str(), method),
            None => false,
        },
        None => false,
    }
}

/// The methods that `cors` allows to `origin`: those of the rule for the
/// origin itself, else those of the rule for `*`, else none.
pub open spec fn methods_for_origin(cors: CorsConfig, origin: Seq<char>) -> Option<Seq<char>> {
    match cors.methods_of(origin) {
        Some(methods) => Some(methods),
        None => cors.methods_of(seq!['*']),
    }
}

/// The methods that `cors` allows to `origin`.
pub fn allowed_methods_for<'a>(cors: &'a CorsConfig, origin: &str) -> (r: Option<&'a str>)
    ensures
        match r {
            Some(methods) => methods_for_origin(*cors, origin@) == Some(methods@),
            None => methods_for_origin(*cors, origin@) is None,
        },
{
    proof {
        reveal_strlit("*");
        assert("*"@ =~= seq!['*']);
    }
    match cors.position(origin) {
        Some(i) => Some(cors.origins[i].methods.as_str()),
        None => match cors.position("*") {
            Some(i) => Some(cors.origins[i].methods.as_str()),
            None => None,
        },
    }
}

/// Entry `i` of the comma-separated `methods` names `requested`, whatever
/// the case of its ASCII letters.
pub open spec fn names_at(methods: Seq<char>, requested: Seq<char>, i: int) -> bool {
    let entries = split(methods, ',');
    0 <= i < entries.len() && eq_ignoring_ascii_case(trimmed(entries[i]), requested)
}

/// Whether `methods`, the methods allowed to an origin, cover `requested`:
/// they are `*` or nothing, or one entry names the method.
pub open spec fn covers_method(methods: Seq<char>, requested: Seq<char>) -> bool {
    is_star(trimmed(methods)) || trimmed(methods).len() == 0 || exists|i: int|
        names_at(methods, requested, i)
}

/// Whether the methods allowed to an origin cover the requested method.
pub fn methods_cover(methods: &str, requested: &str) -> (r: bool)
    ensures
        r == covers_method(methods@, requested@),
{
    let short = trim(methods);
    if text_is_star(short) || short.unicode_len() == 0 {
        return true;
    }
    let entries = split_on(methods, ',');
    let mut i: usize = 0;
    while i < entries.len()
        invariant
            i <= entries@.len(),
            entries.deep_view() == split(methods@, ','),
            forall|k: int| 0 <= k < i ==> !names_at(methods@, requested@, k),
        decreases entries.len() - i,
    {
        assert(entries.deep_view()[i as int] == entries[i as int]@);
        if eq_ignore_ascii_case(trim(entries[i].as_str()), requested) {
            assert(names_at(methods@, requested@, i as int));
            return true;
        }
        i = i + 1;
    }
    false
}

/// The header that names the origin of a cross-origin request.
pub open spec fn origin_header() -> Seq<char> {
    "origin"@
}

/// The header by which a preflight names the method it asks for.
pub open spec fn request_method_header() -> Seq<char> {
    "access-control-request-method"@
}

/// What the cross-origin layer does with a request.
#[derive(Debug, Clone)]
pub enum CorsDecision {
    /// The request is a preflight and this response answers it.
    Preflight(ResponseHead),
    /// The request goes on; the response gets this origin stamped on it,
    /// where one is given.
    Forward(Option<String>),
}

/// What the cross-origin layer does with a request, stated over views.
pub enum CorsPlan {
    Preflight(Seq<HeaderView>),
    Forward(Option<Seq<char>>),
}

/// The headers of the response to a preflight that is granted.
pub open spec fn preflight_headers(origin: Seq<char>, methods: Seq<char>) -> Seq<HeaderView> {
    seq![
        HeaderView { name: "access-control-allow-origin"@, value: Some(origin) },
        HeaderView { name: "access-control-allow-headers"@, value: Some("*"@) },
        HeaderView {
            name: "access-control-allow-methods"@,
            value: Some(
                if methods.len() == 0 {
                    "*"@
                } else {
                    methods
                },
            ),
        },
        HeaderView {
            name: "vary"@,
            value: Some("Origin, Access-Control-Request-Method, Access-Control-Request-Headers"@),
        },
    ]
}

/// The cross-origin rules. A domain without such rules, and a request
/// without an origin that is text, pass untouched. An `OPTIONS` request that
/// names a requested method is a preflight: it is granted where the origin
/// is allowed and its methods cover the requested one, and answered without
/// headers otherwise. Any other request goes on, and its origin is stamped
/// on the response where the origin is allowed.
pub open spec fn cors_plan(domain: Option<DomainConfig>, method: Seq<char>, headers: Seq<HeaderView>)
    -> CorsPlan {
    match domain {
        Some(d) => match (d.cors, text_of(headers, origin_header())) {
            (Some(cors), Some(origin)) => {
                let allowed = methods_for_origin(cors, origin);
                if method == "OPTIONS"@ && has_header(headers, request_method_header()) {
                    let requested = match text_of(headers, request_method_header()) {
                        Some(text) => text,
                        None => Seq::empty(),
                    };
                    match allowed {
                        Some(methods) => if covers_method(methods, requested) {
                            CorsPlan::Preflight(preflight_headers(origin, methods))
                        } else {
                            CorsPlan::Preflight(Seq::empty())
                        },
                        None => CorsPlan::Preflight(Seq::empty()),
                    }
                } else if allowed is Some {
                    CorsPlan::Forward(Some(origin))
                } else {
                    CorsPlan::Forward(None)
                }
            },
            _ => CorsPlan::Forward(None),
        },
        None => CorsPlan::Forward(None),
    }
}

/// Whether a decision is the one that a plan describes.
pub open spec fn decision_follows(decision: CorsDecision, plan: CorsPlan) -> bool {
    match plan {
        CorsPlan::Preflight(headers) => decision matches CorsDecision::Preflight(response)
            && response@.status == 200 && response@.headers == headers && response@.body
            == crate::message::BodyView::Empty,
        CorsPlan::Forward(None) => decision matches CorsDecision::Forward(None),
        CorsPlan::Forward(Some(origin)) => decision matches CorsDecision::Forward(Some(text))
            && text@ == origin,
    }
}

fn header(name: &str, value: &str) -> (r: Header)
    ensures
        r@ == (HeaderView { name: name@, value: Some(value@) }),
{
    Header { name: name.to_owned(), value: Some(value.to_owned()) }
}

/// The cross-origin layer, on the request side.
pub fn cors_handler(domain: Option<&DomainConfig>, req: &RequestHead) -> (decision: CorsDecision)
    ensures
        decision_follows(
            decision,
            cors_plan(
                match domain {
                    Some(d) => Some(*d),
                    None => None,
                },
                req.method@,
                req.headers.deep_view(),
            ),
        ),
{
    let cors = match domain {
        Some(d) => match &d.cors {
            Some(cors) => cors,
            None => {
                return CorsDecision::Forward(None);
            },
        },
        None => {
            return CorsDecision::Forward(None);
        },
    };
    let origin = match header_text(&req.headers, "origin") {
        Some(origin) => origin,
        None => {
            return CorsDecision::Forward(None);
        },
    };
    let allowed = allowed_methods_for(cors, origin);
    let asked = find_header(&req.headers, "access-control-request-method");
    if same_text(req.method.as_str(), "OPTIONS") && asked.is_some() {
        let requested = match header_text(&req.headers, "access-control-request-method") {
            Some(text) => text,
            None => "",
        };
        proof {
            reveal_strlit("");
            assert(""@ =~= Seq::<char>::empty());
        }
        let mut headers: Vec<Header> = Vec::new();
        let mut granted = false;
        if let Some(methods) = allowed {
            if methods_cover(methods, requested) {
                granted = true;
                headers.push(header("access-control-allow-origin", origin));
                headers.push(header("access-control-allow-headers", "*"));
                headers.push(
                    header(
                        "access-control-allow-methods",
                        if methods.unicode_len() == 0 {
                            "*"
                        } else {
                            methods
                        },
                    ),
                );
                headers.push(
                    header(
                        "vary",
                        "Origin, Access-Control-Request-Method, Access-Control-Request-Headers",
                    ),
                );
                assert(headers.deep_view() =~= preflight_headers(origin@, methods@));
            }
        }
        if !granted {
            assert(headers.deep_view() =~= Seq::<HeaderView>::empty());
        }
        CorsDecision::Preflight(ResponseHead { status: 200, headers, body: ResponseBody::Empty })
    } else {
        match allowed {
            Some(_) => CorsDecision::Forward(Some(origin.to_owned())),
            None => CorsDecision::Forward(None),
        }
    }
}

/// The changes that the cross-origin layer makes to a response: the
/// allowed origin in place of any the response names, and `Origin` added to
/// what the response varies by. Nothing where no origin is allowed.
pub open spec fn cors_stamp(allow_origin: Option<Seq<char>>) -> Seq<EditView> {
    match allow_origin {
        Some(origin) => seq![
            EditView::Insert("access-control-allow-origin"@, origin),
            EditView::Append("vary"@, "Origin"@),
        ],
        None => Seq::empty(),
    }
}

/// The cross-origin layer, on the response side.
pub fn cors_response_edits(allow_origin: Option<&str>) -> (edits: Vec<HeaderEdit>)
    ensures
        edits.deep_view() == cors_stamp(
            match allow_origin {
                Some(origin) => Some(origin@),
                None => None,
            },
        ),
{
    let mut edits: Vec<HeaderEdit> = Vec::new();
    if let Some(origin) = allow_origin {
        edits.push(
            HeaderEdit::Insert("access-control-allow-origin".to_owned(), origin.to_owned()),
        );
        edits.push(HeaderEdit::Append("vary".to_owned(), "Origin".to_owned()));
        assert(edits.deep_view() =~= cors_stamp(Some(origin@)));
    } else {
        assert(edits.deep_view() =~= Seq::<EditView>::empty());
    }
    edits
}

/// The value that tells browsers to keep to HTTPS for a year, subdomains included.
pub open spec fn hsts_value() -> Seq<char> {
    "max-age=31536000; includeSubDomains"@
}

/// Whether responses of `domain` carry the strict-transport header: the
/// domain serves TLS and asks for it.
pub open spec fn wants_hsts(domain: Option<DomainConfig>) -> bool {
    domain matches Some(d) && d.https && d.hsts
}

/// The strict-transport layer: the header to set on a response, if any.
pub fn hsts_handler(domain: Option<&DomainConfig>) -> (edit: Option<HeaderEdit>)
    ensures
        match edit {
            Some(e) => wants_hsts(
                match domain {
                    Some(d) => Some(*d),
                    None => None,
                },
            ) && e@ == EditView::Insert("strict-transport-security"@, hsts_value()),
            None => !wants_hsts(
                match domain {
                    Some(d) => Some(*d),
                    None => None,
                },
            ),
        },
{
    match domain {
        Some(d) => if d.https && d.hsts {
            Some(
                HeaderEdit::Insert(
                    "strict-transport-security".to_owned(),
                    "max-age=31536000; includeSubDomains".to_owned(),
                ),
            )
        } else {
            None
        },
        None => None,
    }
}

/// The value that advertises HTTP/3 on `port` for a day.
pub open spec fn alt_svc_value(port: u16) -> Seq<char> {
    "h3=\":"@ + decimal(port as nat) + "\"; ma=86400"@
}

/// Whether responses of `domain` advertise HTTP/3: the domain serves it.
pub open spec fn wants_alt_svc(domain: Option<DomainConfig>) -> bool {
    domain matches Some(d) && d.http3
}

/// The alternative-service layer: the header to set on a response, if any.
pub fn alt_svc_handler(domain: Option<&DomainConfig>, https_port: u16) -> (edit: Option<HeaderEdit>)
    ensures
        match edit {
            Some(e) => wants_alt_svc(
                match domain {
                    Some(d) => Some(*d),
                    None => None,
                },
            ) && e@ == EditView::Insert("alt-svc"@, alt_svc_value(https_port)),
            None => !wants_alt_svc(
                match domain {
                    Some(d) => Some(*d),
                    None => None,
                },
            ),
        },
{
    match domain {
        Some(d) => if d.http3 {
            let port = decimal_text(https_port as u64);
            let head = joined("h3=\":", port.as_str());
            let value = joined(head.as_str(), "\"; ma=86400");
            Some(HeaderEdit::Insert("alt-svc".to_owned(), value))
        } else {
            None
        },
        None => None,
    }
}

/// What the plain-HTTP policy of a domain does with a request.
#[derive(Debug, Clone)]
pub enum HttpModeAction {
    /// The request goes on.
    Forward,
    /// The request is refused: the client must upgrade.
    Reject,
    /// The client is sent to this address.
    Redirect(String),
}

/// The address over HTTPS of what was asked for over HTTP.
pub open spec fn upgrade_location(host: Seq<char>, path_and_query: Option<Seq<char>>) -> Seq<char> {
    "https://"@ + host + match path_and_query {
        Some(rest) => rest,
        None => "/"@,
    }
}

/// The plain-HTTP policy: a host without configuration and a domain that
/// allows plain HTTP let the request go on; a domain that rejects it answers
/// that an upgrade is required; a domain that upgrades sends the client to
/// the same host, path and query over HTTPS.
pub fn http_request_handler(domain: Option<&DomainConfig>, host: &str, path_and_query: Option<&str>)
    -> (action: HttpModeAction)
    ensures
        match domain {
            None => action is Forward,
            Some(d) => match d.http_options {
                HttpOptions::Allow => action is Forward,
                HttpOptions::Reject => action is Reject,
                HttpOptions::Upgrade => action matches HttpModeAction::Redirect(location)
                    && location@ == upgrade_location(
                    host@,
                    match path_and_query {
                        Some(rest) => Some(rest@),
                        None => None,
                    },
                ),
            },
        },
{
    match domain {
        None => HttpModeAction::Forward,
        Some(d) => match d.http_options {
            HttpOptions::Allow => HttpModeAction::Forward,
            HttpOptions::Reject => HttpModeAction::Reject,
            HttpOptions::Upgrade => {
                let start = joined("https://", host);
                let rest = match path_and_query {
                    Some(rest) => rest,
                    None => "/",
                };
                HttpModeAction::Redirect(joined(start.as_str(), rest))
            },
        },
    }
}

/// The host header.
pub open spec fn host_header() -> Seq<char> {
    "host"@
}

/// The host-injection layer: where the request has no host header but its
/// URI names an authority, the authority becomes the host header.
pub fn inject_host_header(req: &RequestHead) -> (edit: Option<HeaderEdit>)
    ensures
        match edit {
            Some(e) => !has_header(req.headers.deep_view(), host_header()) && (req.authority
                matches Some(authority) && e@ == EditView::Insert(host_header(), authority@)),
            None => has_header(req.headers.deep_view(), host_header()) || req.authority is None,
        },
{
    if find_header(&req.headers, "host").is_none() {
        match &req.authority {
            Some(authority) => Some(HeaderEdit::Insert("host".to_owned(), authority.clone())),
            None => None,
        }
    } else {
        None
    }
}

/// A character that may stand in the text of a header value: any but the
/// control characters, the tabulator excepted.
pub open spec fn is_value_char(c: char) -> bool {
    (c >= ' ' && c != '\x7f') || c == '\t'
}

/// A text that can be the value of a header.
pub open spec fn is_header_value(s: Seq<char>) -> bool {
    forall|i: int| 0 <= i < s.len() ==> is_value_char(#[trigger] s[i])
}

/// `http::HeaderValue::from_str`: it accepts a text unless one of its
/// bytes is a control character other than the tabulator. The bytes of a
/// character outside ASCII are none of these.
#[verifier::external_body]
fn accepts_header_value(s: &str) -> (ok: bool)
    ensures
        ok == is_header_value(s@),
{
    http::HeaderValue::from_str(s).is_ok()
}

/// The value of the header that names the proxy and its version.
pub open spec fn proxy_value(version: Seq<char>) -> Seq<char> {
    "vane/"@ + version
}

/// The headers by which the proxy names itself on a response: the server
/// name, where one is configured, and the proxy with its version; each only
/// where its text can be the value of a header.
pub open spec fn identity_edits(server_name: Option<Seq<char>>, version: Seq<char>) -> Seq<
    EditView,
> {
    let server = match server_name {
        Some(name) => if is_header_value(name) {
            seq![EditView::Insert("server"@, name)]
        } else {
            Seq::empty()
        },
        None => Seq::empty(),
    };
    let proxy = if is_header_value(proxy_value(version)) {
        seq![EditView::Insert("proxy"@, proxy_value(version))]
    } else {
        Seq::empty()
    };
    server + proxy
}

/// The identity layer: the headers by which the proxy names itself.
pub fn inject_response_headers_handler(server_name: Option<&str>, version: &str) -> (edits: Vec<
    HeaderEdit,
>)
    ensures
        edits.deep_view() == identity_edits(
            match server_name {
                Some(name) => Some(name@),
                None => None,
            },
            version@,
        ),
{
    let mut edits: Vec<HeaderEdit> = Vec::new();
    assert(edits.deep_view() =~= Seq::<EditView>::empty());
    if let Some(name) = server_name {
        if accepts_header_value(name) {
            let ghost before = edits.deep_view();
            let edit = HeaderEdit::Insert("server".to_owned(), name.to_owned());
            edits.push(edit);
            assert(edits.deep_view() =~= before.push(edit@));
        }
    }
    let value = joined("vane/", version);
    if accepts_header_value(value.as_str()) {
        let ghost before = edits.deep_view();
        let edit = HeaderEdit::Insert("proxy".to_owned(), value);
        edits.push(edit);
        assert(edits.deep_view() =~= before.push(edit@));
    }
    assert(edits.deep_view() =~= identity_edits(
        match server_name {
            Some(name) => Some(name@),
            None => None,
        },
        version@,
    ));
    edits
}

} // verus!
