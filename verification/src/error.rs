//! The ways a request can fail inside the proxy, and what the client sees of
//! each.

use crate::text::{joined, decimal, decimal_text};
use vstd::prelude::*;

verus! {

/// A request that the proxy answers itself, with an error.
#[derive(Debug, Clone)]
pub enum VaneError {
    /// The host is unknown or was not given.
    HostNotFound,
    /// No route of the host matches the path.
    NoRouteFound,
    /// Two routes of the host match the path equally well.
    AmbiguousRoute,
    /// Every target failed; the text says how the last one did.
    BadGateway(String),
    /// The domain does not accept the request's method.
    MethodNotAllowed,
    /// A rate limit refused the request.
    RateLimited,
}

/// What an error holds.
pub enum ErrorView {
    HostNotFound,
    NoRouteFound,
    AmbiguousRoute,
    BadGateway(Seq<char>),
    MethodNotAllowed,
    RateLimited,
}

impl View for VaneError {
    type V = ErrorView;

    open spec fn view(&self) -> ErrorView {
        match self {
            VaneError::HostNotFound => ErrorView::HostNotFound,
            VaneError::NoRouteFound => ErrorView::NoRouteFound,
            VaneError::AmbiguousRoute => ErrorView::AmbiguousRoute,
            VaneError::BadGateway(cause) => ErrorView::BadGateway(cause@),
            VaneError::MethodNotAllowed => ErrorView::MethodNotAllowed,
            VaneError::RateLimited => ErrorView::RateLimited,
        }
    }
}

impl VaneError {
    /// The status code of the response for this error.
    pub open spec fn status(self) -> u16 {
        match self {
            VaneError::HostNotFound => 400,
            VaneError::NoRouteFound => 404,
            VaneError::AmbiguousRoute => 500,
            VaneError::BadGateway(_) => 502,
            VaneError::MethodNotAllowed => 405,
            VaneError::RateLimited => 429,
        }
    }

    /// The status code of the response for this error.
    pub fn status_code(&self) -> (code: u16)
        ensures
            code == self.status(),
    {
        match self {
            VaneError::HostNotFound => 400,
            VaneError::NoRouteFound => 404,
            VaneError::AmbiguousRoute => 500,
            VaneError::BadGateway(_) => 502,
            VaneError::MethodNotAllowed => 405,
            VaneError::RateLimited => 429,
        }
    }

    /// The text sent when no status page is on disk for the error's code.
    pub fn default_message(&self) -> (text: &'static str)
        ensures
            text@ == match self {
                VaneError::HostNotFound => "Host not configured or header missing"@,
                VaneError::NoRouteFound => "No route found for this path"@,
                VaneError::AmbiguousRoute => "Ambiguous route configuration"@,
                VaneError::BadGateway(_) => "Upstream server error"@,
                VaneError::MethodNotAllowed => "Method Not Allowed"@,
                VaneError::RateLimited => "Too Many Requests"@,
            },
    {
        match self {
            VaneError::HostNotFound => "Host not configured or header missing",
            VaneError::NoRouteFound => "No route found for this path",
            VaneError::AmbiguousRoute => "Ambiguous route configuration",
            VaneError::BadGateway(_) => "Upstream server error",
            VaneError::MethodNotAllowed => "Method Not Allowed",
            VaneError::RateLimited => "Too Many Requests",
        }
    }

    /// The status page that answers this error.
    pub fn page(&self) -> (page: StatusPage)
        ensures
            page.status == self.status(),
            page.default_message@ == self.default_message_text(),
    {
        StatusPage { status: self.status_code(), default_message: self.default_message().to_owned() }
    }

    /// The text of `default_message`.
    pub open spec fn default_message_text(self) -> Seq<char> {
        match self {
            VaneError::HostNotFound => "Host not configured or header missing"@,
            VaneError::NoRouteFound => "No route found for this path"@,
            VaneError::AmbiguousRoute => "Ambiguous route configuration"@,
            VaneError::BadGateway(_) => "Upstream server error"@,
            VaneError::MethodNotAllowed => "Method Not Allowed"@,
            VaneError::RateLimited => "Too Many Requests"@,
        }
    }
}

/// A response that is served from the status page of its code where the
/// page can be read, and as plain text otherwise.
#[derive(Debug, Clone)]
pub struct StatusPage {
    pub status: u16,
    pub default_message: String,
}

/// A status page as it goes out: the content type and the body.
#[derive(Debug, Clone)]
pub struct RenderedPage {
    pub status: u16,
    pub content_type: String,
    pub body: String,
}

/// The content type of a status page that was read from its file.
pub open spec fn html_content_type() -> Seq<char> {
    "text/html; charset=utf-8"@
}

/// The content type of the text that stands in for a status page.
pub open spec fn plain_content_type() -> Seq<char> {
    "text/plain; charset=utf-8"@
}

/// Name of the file, below the `status` directory, that holds the page for `status`.
pub fn status_page_file(status: u16) -> (name: String)
    ensures
        name@ == decimal(status as nat) + ".html"@,
{
    let number = decimal_text(status as u64);
    joined(number.as_str(), ".html")
}

/// Renders a status page. `file` is what was read from the page's file, or
/// nothing where it could not be read: the file's text goes out as HTML, the
/// default message as plain text.
pub fn serve_status_page(status: u16, default_message: &str, file: Option<String>) -> (page:
    RenderedPage)
    ensures
        page.status == status,
        match file {
            Some(text) => page.body@ == text@ && page.content_type@ == html_content_type(),
            None => page.body@ == default_message@ && page.content_type@ == plain_content_type(),
        },
{
    match file {
        Some(text) => RenderedPage {
            status,
            content_type: "text/html; charset=utf-8".to_owned(),
            body: text,
        },
        None => RenderedPage {
            status,
            content_type: "text/plain; charset=utf-8".to_owned(),
            body: default_message.to_owned(),
        },
    }
}

} // verus!
