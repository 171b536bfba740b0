//! Fetching a certificate or its key from a certificate server: where to
//! ask, how to read the reply, and when to try again.

use crate::text::{joined, lower_case, same_text, to_lowercase};
use vstd::prelude::*;
use vstd::utf8::{decode_utf8, valid_utf8};

verus! {

/// How often a resource is asked for at most.
pub const RETRY_ATTEMPTS: u32 = 5;

/// Seconds between two attempts.
pub const RETRY_DELAY_SECONDS: u64 = 5;

/// What is fetched.
#[derive(Debug, Clone, Copy, PartialEq, Eq, Structural)]
pub enum Resource {
    Certificate,
    Key,
}

/// The payload of a reply.
#[derive(Debug, Clone)]
pub struct ApiResponseData {
    pub certificate_base64: Option<String>,
    pub key_base64: Option<String>,
}

/// A reply of the certificate server.
#[derive(Debug, Clone)]
pub struct ApiResponse {
    pub status: String,
    pub data: Option<ApiResponseData>,
}

/// Why a resource could not be fetched.
#[derive(Debug, Clone, Copy, PartialEq, Eq, Structural)]
pub enum FetchError {
    /// The server answered with success, but not with a reply that can be read.
    UnreadableReply,
    /// The reply does not report success, or lacks the resource.
    InvalidData,
    /// The resource is not base64.
    BadEncoding,
    /// The resource is not text.
    NotText,
    /// The server has no certificate for the domain.
    NotFound,
    /// Every attempt failed.
    Exhausted,
}

/// The address of a resource: `{server}/v1/certificate/{domain}` for the
/// certificate, and the same followed by `/key` for its key.
pub open spec fn endpoint_of(server_url: Seq<char>, domain: Seq<char>, resource: Resource) -> Seq<
    char,
> {
    let certificate = server_url + "/v1/certificate/"@ + domain;
    match resource {
        Resource::Certificate => certificate,
        Resource::Key => certificate + "/key"@,
    }
}

/// The address to ask for a resource.
pub fn endpoint(server_url: &str, domain: &str, resource: Resource) -> (url: String)
    ensures
        url@ == endpoint_of(server_url@, domain@, resource),
{
    let base = joined(server_url, "/v1/certificate/");
    let certificate = joined(base.as_str(), domain);
    match resource {
        Resource::Certificate => certificate,
        Resource::Key => joined(certificate.as_str(), "/key"),
    }
}

/// The bytes that standard base64, with padding, decodes a text to, where
/// the text is such base64.
pub uninterp spec fn base64_decoded(text: Seq<char>) -> Option<Seq<u8>>;

/// `Engine::decode` of base64's `general_purpose::STANDARD`. The outcome is
/// a matter of the text alone; the library names it and does not spell it out.
#[verifier::external_body]
fn decode_base64(text: &str) -> (bytes: Option<Vec<u8>>)
    ensures
        match bytes {
            Some(b) => base64_decoded(text@) == Some(b@),
            None => base64_decoded(text@) is None,
        },
{
    base64::Engine::decode(&base64::engine::general_purpose::STANDARD, text).ok()
}

/// `String::from_utf8`: the text that the bytes encode, where they are
/// valid UTF-8, and nothing where they are not.
#[verifier::external_body]
fn text_from_utf8(bytes: Vec<u8>) -> (text: Option<String>)
    ensures
        text is Some <==> valid_utf8(bytes@),
        text matches Some(t) ==> t@ == decode_utf8(bytes@),
{
    String::from_utf8(bytes).ok()
}

/// The text of a resource that came as base64.
pub open spec fn decoded_resource(encoded: Seq<char>) -> Result<Seq<char>, FetchError> {
    match base64_decoded(encoded) {
        None => Err(FetchError::BadEncoding),
        Some(bytes) => if valid_utf8(bytes) {
            Ok(decode_utf8(bytes))
        } else {
            Err(FetchError::NotText)
        },
    }
}

/// Whether a result is the one that its view describes.
pub open spec fn text_result_is(r: Result<String, FetchError>, expected: Result<
    Seq<char>,
    FetchError,
>) -> bool {
    match expected {
        Ok(text) => r matches Ok(t) && t@ == text,
        Err(e) => r == Err::<String, FetchError>(e),
    }
}

/// Decodes a resource from base64 to text.
pub fn decode_resource(encoded: &str) -> (r: Result<String, FetchError>)
    ensures
        text_result_is(r, decoded_resource(encoded@)),
{
    match decode_base64(encoded) {
        None => Err(FetchError::BadEncoding),
        Some(bytes) => match text_from_utf8(bytes) {
            Some(text) => Ok(text),
            None => Err(FetchError::NotText),
        },
    }
}

/// The base64 text of `resource` in a reply that reports success, whatever
/// the case of its letters, and carries the resource.
pub open spec fn payload_of(reply: ApiResponse, resource: Resource) -> Option<Seq<char>> {
    if lower_case(reply.status@) == "success"@ {
        match reply.data {
            Some(data) => match resource {
                Resource::Certificate => match data.certificate_base64 {
                    Some(text) => Some(text@),
                    None => None,
                },
                Resource::Key => match data.key_base64 {
                    Some(text) => Some(text@),
                    None => None,
                },
            },
            None => None,
        }
    } else {
        None
    }
}

/// What a reply yields: the decoded resource, or why it yields none.
pub open spec fn reply_result(reply: ApiResponse, resource: Resource) -> Result<
    Seq<char>,
    FetchError,
> {
    match payload_of(reply, resource) {
        Some(encoded) => decoded_resource(encoded),
        None => Err(FetchError::InvalidData),
    }
}

/// Reads the resource out of a reply.
pub fn read_reply(reply: &ApiResponse, resource: Resource) -> (r: Result<String, FetchError>)
    ensures
        text_result_is(r, reply_result(*reply, resource)),
{
    let status = to_lowercase(reply.status.as_str());
    if !same_text(status.as_str(), "success") {
        return Err(FetchError::InvalidData);
    }
    let data = match &reply.data {
        Some(data) => data,
        None => {
            return Err(FetchError::InvalidData);
        },
    };
    let encoded = match resource {
        Resource::Certificate => &data.certificate_base64,
        Resource::Key => &data.key_base64,
    };
    match encoded {
        Some(text) => decode_resource(text.as_str()),
        None => Err(FetchError::InvalidData),
    }
}

/// How one attempt ended.
#[derive(Debug, Clone)]
pub enum AttemptOutcome {
    /// The server could not be reached.
    Unreachable,
    /// The server answered with this status; with a success status comes
    /// the reply, where the body could be read as one.
    Answer(u16, Option<ApiResponse>),
}

/// What to do after an attempt.
#[derive(Debug, Clone)]
pub enum FetchStep {
    /// The resource was fetched: this is its text.
    Done(String),
    /// The fetch failed for good.
    Fail(FetchError),
    /// Wait for the delay, then make the attempt of this number.
    Retry(u32),
}

/// What a step holds.
pub enum FetchStepView {
    Done(Seq<char>),
    Fail(FetchError),
    Retry(u32),
}

impl View for FetchStep {
    type V = FetchStepView;

    open spec fn view(&self) -> FetchStepView {
        match self {
            FetchStep::Done(text) => FetchStepView::Done(text@),
            FetchStep::Fail(e) => FetchStepView::Fail(*e),
            FetchStep::Retry(attempt) => FetchStepView::Retry(*attempt),
        }
    }
}

/// A status that reports success.
pub open spec fn is_success(status: u16) -> bool {
    200 <= status < 300
}

/// What follows attempt number `attempt`, counted from one. A success
/// status ends the fetch, with the resource or with the reason why the
/// reply yields none. So does 404. After any other status, and where the
/// server could not be reached, the next attempt is made, up to the fifth.
pub open spec fn step_after(attempt: u32, outcome: AttemptOutcome, resource: Resource)
    -> FetchStepView {
    match outcome {
        AttemptOutcome::Answer(status, reply) => if is_success(status) {
            match reply {
                Some(r) => match reply_result(r, resource) {
                    Ok(text) => FetchStepView::Done(text),
                    Err(e) => FetchStepView::Fail(e),
                },
                None => FetchStepView::Fail(FetchError::UnreadableReply),
            }
        } else if status == 404 {
            FetchStepView::Fail(FetchError::NotFound)
        } else if attempt < RETRY_ATTEMPTS {
            FetchStepView::Retry((attempt + 1) as u32)
        } else {
            FetchStepView::Fail(FetchError::Exhausted)
        },
        AttemptOutcome::Unreachable => if attempt < RETRY_ATTEMPTS {
            FetchStepView::Retry((attempt + 1) as u32)
        } else {
            FetchStepView::Fail(FetchError::Exhausted)
        },
    }
}

/// Decides what follows an attempt.
pub fn fetch_resource(attempt: u32, outcome: &AttemptOutcome, resource: Resource) -> (step:
    FetchStep)
    ensures
        step@ == step_after(attempt, *outcome, resource),
{
    match outcome {
        AttemptOutcome::Answer(status, reply) => {
            if 200 <= *status && *status < 300 {
                match reply {
                    Some(r) => match read_reply(r, resource) {
                        Ok(text) => FetchStep::Done(text),
                        Err(e) => FetchStep::Fail(e),
                    },
                    None => FetchStep::Fail(FetchError::UnreadableReply),
                }
            } else if *status == 404 {
                FetchStep::Fail(FetchError::NotFound)
            } else if attempt < RETRY_ATTEMPTS {
                FetchStep::Retry(attempt + 1)
            } else {
                FetchStep::Fail(FetchError::Exhausted)
            }
        },
        AttemptOutcome::Unreachable => {
            if attempt < RETRY_ATTEMPTS {
                FetchStep::Retry(attempt + 1)
            } else {
                FetchStep::Fail(FetchError::Exhausted)
            }
        },
    }
}

/// No fetch makes more than five attempts: after the fifth, nothing asks
/// for another.
pub proof fn lemma_attempts_are_bounded(attempt: u32, outcome: AttemptOutcome, resource: Resource)
    ensures
        step_after(attempt, outcome, resource) matches FetchStepView::Retry(next) ==> next
            == attempt + 1 && next <= RETRY_ATTEMPTS,
        outcome matches AttemptOutcome::Answer(status, _) && status == 404 ==> step_after(
            attempt,
            outcome,
            resource,
        ) == FetchStepView::Fail(FetchError::NotFound),
{
}

} // verus!
