use doh_proxy::client::{
    validate_response_content_length, validate_upstream_response, UpstreamError, UpstreamGate,
    MAX_CONTENT_LENGTH,
};
use doh_proxy::config::ClientConfiguration;

fn client_configuration(max_outstanding: usize) -> ClientConfiguration {
    ClientConfiguration::new("https://doh.test/dns-query".to_string(), 5, max_outstanding)
}

#[test]
fn content_length_must_be_present() {
    assert_eq!(
        validate_response_content_length(None),
        Err(UpstreamError::InvalidContentLength)
    );
}

#[test]
fn content_length_must_fit_a_dns_message() {
    assert_eq!(validate_response_content_length(Some(0)), Ok(()));
    assert_eq!(validate_response_content_length(Some(MAX_CONTENT_LENGTH)), Ok(()));
    assert_eq!(
        validate_response_content_length(Some(MAX_CONTENT_LENGTH + 1)),
        Err(UpstreamError::InvalidContentLength)
    );
}

#[test]
fn non_200_status_is_an_http_error_with_the_status() {
    assert_eq!(
        validate_upstream_response(502, Some(100)),
        Err(UpstreamError::HttpError(502))
    );
    assert_eq!(
        validate_upstream_response(404, None),
        Err(UpstreamError::HttpError(404))
    );
}

#[test]
fn ok_status_with_good_length_is_accepted() {
    assert_eq!(validate_upstream_response(200, Some(512)), Ok(()));
    assert_eq!(
        validate_upstream_response(200, None),
        Err(UpstreamError::InvalidContentLength)
    );
}

#[test]
fn shed_load_is_not_a_request_error() {
    assert!(!UpstreamError::TooManyOutstanding.counts_as_request_error());
    assert!(UpstreamError::Timeout.counts_as_request_error());
    assert!(UpstreamError::HttpError(502).counts_as_request_error());
    assert!(UpstreamError::InvalidContentLength.counts_as_request_error());
    assert!(UpstreamError::Transport.counts_as_request_error());
}

#[test]
fn gate_refuses_when_full_and_recovers_on_release() {
    let configuration = client_configuration(1);
    let mut gate = UpstreamGate::new(&configuration);
    assert!(gate.try_acquire());
    assert!(!gate.try_acquire());
    assert_eq!(gate.outstanding(), 1);
    gate.release();
    assert_eq!(gate.outstanding(), 0);
    assert!(gate.try_acquire());
}

#[test]
fn gate_never_exceeds_its_width() {
    let configuration = client_configuration(3);
    let mut gate = UpstreamGate::new(&configuration);
    let mut admitted = 0;
    for _ in 0..10 {
        if gate.try_acquire() {
            admitted += 1;
        }
        assert!(gate.outstanding() <= 3);
    }
    assert_eq!(admitted, 3);
}
