//! Read-only remote repository evidence: the authorization token, the
//! transport's reply, and what a reply means for the evidence report.

use vstd::prelude::*;
use crate::text::{chars_of, string_of, trim, trimmed};

verus! {

/// The default cap on a metadata response body.
pub const DEFAULT_MAX_RESPONSE_BYTES: usize = 32768;

/// A read token, kept out of debug output.
pub struct RemoteReadAuthorization(String);

impl RemoteReadAuthorization {
    pub closed spec fn token(&self) -> Seq<char> {
        self.0@
    }

    /// An authorization for a token that is not blank.
    pub fn new(token: String) -> (r: Option<Self>)
        ensures
            trim(token@).len() == 0 ==> r is None,
            trim(token@).len() > 0 ==> (r matches Some(a) && a.token() == token@),
    {
        let c = chars_of(token.as_str());
        if trimmed(c.as_slice()).len() == 0 {
            None
        } else {
            Some(RemoteReadAuthorization(token))
        }
    }

    /// The token, for the transport's request header.
    pub fn expose_for_transport(&self) -> (r: &str)
        ensures
            r@ == self.token(),
    {
        self.0.as_str()
    }
}

#[derive(Debug, Clone, Copy, PartialEq, Eq, Structural)]
pub enum RemoteRequestMode {
    NotRequested,
    ReadOnly,
}

/// What the transport got back for a metadata request.
#[derive(Debug, Clone, PartialEq, Eq)]
pub struct RemoteTransportResponse {
    pub status: u16,
    pub retry_after_seconds: Option<u32>,
    pub rate_limited: bool,
    pub body: Vec<u8>,
}

#[derive(Debug, Clone, Copy, PartialEq, Eq, Structural)]
pub enum RemoteTransportError {
    Unavailable,
}

/// What a transport result means for the evidence report.
#[derive(Debug, Clone, Copy, PartialEq, Eq, Structural)]
pub enum RemoteReplyClass {
    /// The transport could not be used.
    TransportUnavailable,
    RateLimited { retry_after_seconds: Option<u32> },
    Denied,
    NotFound,
    UnexpectedStatus(u16),
    /// A success whose body exceeds the response cap.
    ResponseTooLarge,
    /// A success whose body is to be parsed as repository metadata.
    ParseBody,
}

pub open spec fn reply_class(response: RemoteTransportResponse, max_response_bytes: usize) -> RemoteReplyClass {
    if response.status == 429 || response.rate_limited {
        RemoteReplyClass::RateLimited { retry_after_seconds: response.retry_after_seconds }
    } else if 200 <= response.status <= 299 {
        if response.body@.len() > max_response_bytes {
            RemoteReplyClass::ResponseTooLarge
        } else {
            RemoteReplyClass::ParseBody
        }
    } else if response.status == 401 || response.status == 403 {
        RemoteReplyClass::Denied
    } else if response.status == 404 {
        RemoteReplyClass::NotFound
    } else {
        RemoteReplyClass::UnexpectedStatus(response.status)
    }
}

/// Rate limiting first, then the status: success (bounded body), denial,
/// absence, or an unexpected status.
pub fn classify_transport_response(response: &RemoteTransportResponse, max_response_bytes: usize) -> (r: RemoteReplyClass)
    ensures
        r == reply_class(*response, max_response_bytes),
{
    if response.status == 429 || response.rate_limited {
        return RemoteReplyClass::RateLimited { retry_after_seconds: response.retry_after_seconds };
    }
    if 200 <= response.status && response.status <= 299 {
        if response.body.len() > max_response_bytes {
            RemoteReplyClass::ResponseTooLarge
        } else {
            RemoteReplyClass::ParseBody
        }
    } else if response.status == 401 || response.status == 403 {
        RemoteReplyClass::Denied
    } else if response.status == 404 {
        RemoteReplyClass::NotFound
    } else {
        RemoteReplyClass::UnexpectedStatus(response.status)
    }
}

/// `classify_transport_response` of a reply; a transport failure is
/// `TransportUnavailable`.
pub fn classify_transport_result(
    result: &Result<RemoteTransportResponse, RemoteTransportError>,
    max_response_bytes: usize,
) -> (r: RemoteReplyClass)
    ensures
        r == match result {
            Ok(response) => reply_class(*response, max_response_bytes),
            Err(_) => RemoteReplyClass::TransportUnavailable,
        },
{
    match result {
        Ok(response) => classify_transport_response(response, max_response_bytes),
        Err(RemoteTransportError::Unavailable) => RemoteReplyClass::TransportUnavailable,
    }
}

/// The repository a remote request reads.
#[derive(Debug, Clone, PartialEq, Eq)]
pub struct RemoteRepositoryReference {
    pub host: String,
    pub owner: String,
    pub name: String,
}

/// The GitHub API reference of `owner/name`; none where either is empty.
pub fn github_reference(owner: &str, name: &str) -> (r: Option<RemoteRepositoryReference>)
    ensures
        (owner@.len() == 0 || name@.len() == 0) <==> r is None,
        r matches Some(reference) ==> reference.host@ == "api.github.com"@ && reference.owner@ == owner@
            && reference.name@ == name@,
{
    let o = chars_of(owner);
    let n = chars_of(name);
    if o.len() == 0 || n.len() == 0 {
        return None;
    }
    let h = chars_of("api.github.com");
    Some(RemoteRepositoryReference {
        host: string_of(h.as_slice()),
        owner: string_of(o.as_slice()),
        name: string_of(n.as_slice()),
    })
}

/// Repository metadata as the remote reported it.
#[derive(Debug, Clone, PartialEq, Eq)]
pub struct RemoteRepositoryMetadata {
    pub default_branch: Option<String>,
    pub archived: Option<bool>,
    pub license_spdx: Option<String>,
    pub web_url: Option<String>,
}

/// What remote evidence collection gave.
#[derive(Debug, Clone, PartialEq, Eq)]
pub enum RemoteEvidenceReport {
    NotRequested,
    Observed(RemoteRepositoryReference, RemoteRepositoryMetadata),
    RateLimited(RemoteRepositoryReference, Option<u32>),
    Denied(RemoteRepositoryReference),
    NotFound(RemoteRepositoryReference),
    TransportUnavailable(RemoteRepositoryReference),
    UnexpectedStatus(RemoteRepositoryReference, u16),
    ResponseTooLarge(RemoteRepositoryReference),
    MalformedResponse(RemoteRepositoryReference),
}

/// A request goes out only where one was given and the mode is read-only.
pub fn sends_request(mode: RemoteRequestMode, has_request: bool) -> (r: bool)
    ensures
        r == (has_request && mode == RemoteRequestMode::ReadOnly),
{
    has_request && mode == RemoteRequestMode::ReadOnly
}

/// The report for a reply of class `class` about `repository`; for a body
/// to parse, `metadata` is what it decoded to (`None` where it did not).
pub open spec fn reply_report(repository: RemoteRepositoryReference, class: RemoteReplyClass, metadata: Option<RemoteRepositoryMetadata>) -> RemoteEvidenceReport {
    match class {
        RemoteReplyClass::TransportUnavailable => RemoteEvidenceReport::TransportUnavailable(repository),
        RemoteReplyClass::RateLimited { retry_after_seconds } => RemoteEvidenceReport::RateLimited(repository, retry_after_seconds),
        RemoteReplyClass::Denied => RemoteEvidenceReport::Denied(repository),
        RemoteReplyClass::NotFound => RemoteEvidenceReport::NotFound(repository),
        RemoteReplyClass::UnexpectedStatus(status) => RemoteEvidenceReport::UnexpectedStatus(repository, status),
        RemoteReplyClass::ResponseTooLarge => RemoteEvidenceReport::ResponseTooLarge(repository),
        RemoteReplyClass::ParseBody => match metadata {
            Some(m) => RemoteEvidenceReport::Observed(repository, m),
            None => RemoteEvidenceReport::MalformedResponse(repository),
        },
    }
}

/// `reply_report(repository, class, metadata)`.
pub fn report_for_reply(repository: RemoteRepositoryReference, class: RemoteReplyClass, metadata: Option<RemoteRepositoryMetadata>) -> (r: RemoteEvidenceReport)
    ensures
        r == reply_report(repository, class, metadata),
{
    match class {
        RemoteReplyClass::TransportUnavailable => RemoteEvidenceReport::TransportUnavailable(repository),
        RemoteReplyClass::RateLimited { retry_after_seconds } => RemoteEvidenceReport::RateLimited(repository, retry_after_seconds),
        RemoteReplyClass::Denied => RemoteEvidenceReport::Denied(repository),
        RemoteReplyClass::NotFound => RemoteEvidenceReport::NotFound(repository),
        RemoteReplyClass::UnexpectedStatus(status) => RemoteEvidenceReport::UnexpectedStatus(repository, status),
        RemoteReplyClass::ResponseTooLarge => RemoteEvidenceReport::ResponseTooLarge(repository),
        RemoteReplyClass::ParseBody => match metadata {
            Some(m) => RemoteEvidenceReport::Observed(repository, m),
            None => RemoteEvidenceReport::MalformedResponse(repository),
        },
    }
}

} // verus!
