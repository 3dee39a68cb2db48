use reposeiri::remote::{
    github_reference, report_for_reply, sends_request, RemoteEvidenceReport, RemoteRepositoryMetadata, RemoteRequestMode,
    classify_transport_response, classify_transport_result, RemoteReadAuthorization,
    RemoteReplyClass, RemoteTransportError, RemoteTransportResponse, DEFAULT_MAX_RESPONSE_BYTES,
};

fn response(status: u16, rate_limited: bool, body: usize) -> RemoteTransportResponse {
    RemoteTransportResponse {
        status,
        retry_after_seconds: Some(30),
        rate_limited,
        body: vec![b'x'; body],
    }
}

#[test]
fn blank_tokens_are_refused() {
    assert!(RemoteReadAuthorization::new("  \t".to_string()).is_none());
    assert!(RemoteReadAuthorization::new(String::new()).is_none());
    let auth = RemoteReadAuthorization::new(" tok ".to_string()).expect("token");
    assert_eq!(auth.expose_for_transport(), " tok ");
}

#[test]
fn replies_are_classified_by_status() {
    let max = DEFAULT_MAX_RESPONSE_BYTES;
    assert_eq!(
        classify_transport_response(&response(200, true, 1), max),
        RemoteReplyClass::RateLimited { retry_after_seconds: Some(30) }
    );
    assert_eq!(
        classify_transport_response(&response(429, false, 1), max),
        RemoteReplyClass::RateLimited { retry_after_seconds: Some(30) }
    );
    assert_eq!(classify_transport_response(&response(204, false, 1), max), RemoteReplyClass::ParseBody);
    assert_eq!(
        classify_transport_response(&response(200, false, max + 1), max),
        RemoteReplyClass::ResponseTooLarge
    );
    assert_eq!(classify_transport_response(&response(401, false, 0), max), RemoteReplyClass::Denied);
    assert_eq!(classify_transport_response(&response(403, false, 0), max), RemoteReplyClass::Denied);
    assert_eq!(classify_transport_response(&response(404, false, 0), max), RemoteReplyClass::NotFound);
    assert_eq!(
        classify_transport_response(&response(500, false, 0), max),
        RemoteReplyClass::UnexpectedStatus(500)
    );
    assert_eq!(
        classify_transport_result(&Err(RemoteTransportError::Unavailable), max),
        RemoteReplyClass::TransportUnavailable
    );
    assert_eq!(classify_transport_result(&Ok(response(299, false, 0)), max), RemoteReplyClass::ParseBody);
}

#[test]
fn github_references_need_owner_and_name() {
    assert!(github_reference("", "repo").is_none());
    assert!(github_reference("owner", "").is_none());
    let reference = github_reference("owner", "repo").unwrap();
    assert_eq!((reference.host.as_str(), reference.owner.as_str(), reference.name.as_str()), ("api.github.com", "owner", "repo"));
}

#[test]
fn replies_become_reports() {
    assert!(sends_request(RemoteRequestMode::ReadOnly, true));
    assert!(!sends_request(RemoteRequestMode::NotRequested, true));
    assert!(!sends_request(RemoteRequestMode::ReadOnly, false));
    let reference = github_reference("o", "r").unwrap();
    assert_eq!(
        report_for_reply(reference.clone(), RemoteReplyClass::NotFound, None),
        RemoteEvidenceReport::NotFound(reference.clone())
    );
    assert_eq!(
        report_for_reply(reference.clone(), RemoteReplyClass::ParseBody, None),
        RemoteEvidenceReport::MalformedResponse(reference.clone())
    );
    let metadata = RemoteRepositoryMetadata { default_branch: Some("main".to_string()), archived: Some(false), license_spdx: None, web_url: None };
    assert_eq!(
        report_for_reply(reference.clone(), RemoteReplyClass::ParseBody, Some(metadata.clone())),
        RemoteEvidenceReport::Observed(reference.clone(), metadata)
    );
    assert_eq!(
        report_for_reply(reference.clone(), RemoteReplyClass::RateLimited { retry_after_seconds: Some(30) }, None),
        RemoteEvidenceReport::RateLimited(reference, Some(30))
    );
}
