use dioscuri::error::{show_failure, FetchError, RejectReason};
use dioscuri::fetch::{
    after_handshake, begin, handle_redirect, read_allowance, GeminiResponse, Outcome,
    RedirectChain, MAX_REDIRECTS, MAX_RESPONSE_BYTES,
};
use dioscuri::status::StatusCode;
use dioscuri::tofu::{AcceptKind, TrustStore, Verdict};

/// A self-signed Ed25519 certificate for `www.example.com`, valid from
/// 2021-07-27 12:37:14 UTC to 2023-06-27 12:37:14 UTC.
fn example_certificate() -> Vec<u8> {
    vec![
        0x30, 0x82, 0x01, 0x08, 0x30, 0x81, 0xbb, 0x02, 0x14, 0x77, 0xe5, 0xf4, 0xc0, 0x34, 0x88, 0xa1,
        0x22, 0x6c, 0xf5, 0xcd, 0x45, 0xf3, 0xcd, 0xf0, 0x49, 0x91, 0xf8, 0x15, 0x43, 0x30, 0x05, 0x06,
        0x03, 0x2b, 0x65, 0x70, 0x30, 0x27, 0x31, 0x0b, 0x30, 0x09, 0x06, 0x03, 0x55, 0x04, 0x06, 0x13,
        0x02, 0x44, 0x45, 0x31, 0x18, 0x30, 0x16, 0x06, 0x03, 0x55, 0x04, 0x03, 0x0c, 0x0f, 0x77, 0x77,
        0x77, 0x2e, 0x65, 0x78, 0x61, 0x6d, 0x70, 0x6c, 0x65, 0x2e, 0x63, 0x6f, 0x6d, 0x30, 0x1e, 0x17,
        0x0d, 0x32, 0x31, 0x30, 0x37, 0x32, 0x37, 0x31, 0x32, 0x33, 0x37, 0x31, 0x34, 0x5a, 0x17, 0x0d,
        0x32, 0x33, 0x30, 0x36, 0x32, 0x37, 0x31, 0x32, 0x33, 0x37, 0x31, 0x34, 0x5a, 0x30, 0x27, 0x31,
        0x0b, 0x30, 0x09, 0x06, 0x03, 0x55, 0x04, 0x06, 0x13, 0x02, 0x44, 0x45, 0x31, 0x18, 0x30, 0x16,
        0x06, 0x03, 0x55, 0x04, 0x03, 0x0c, 0x0f, 0x77, 0x77, 0x77, 0x2e, 0x65, 0x78, 0x61, 0x6d, 0x70,
        0x6c, 0x65, 0x2e, 0x63, 0x6f, 0x6d, 0x30, 0x2a, 0x30, 0x05, 0x06, 0x03, 0x2b, 0x65, 0x70, 0x03,
        0x21, 0x00, 0x3e, 0xa4, 0x05, 0xd2, 0xef, 0x19, 0xf5, 0xe0, 0xab, 0xf3, 0x3e, 0x4d, 0xf5, 0x4e,
        0xe5, 0x1d, 0x05, 0x44, 0x79, 0x3d, 0x98, 0xe2, 0x67, 0x25, 0x37, 0xf4, 0xff, 0xca, 0xf8, 0x60,
        0x98, 0x4c, 0x30, 0x05, 0x06, 0x03, 0x2b, 0x65, 0x70, 0x03, 0x41, 0x00, 0x20, 0xdb, 0x7a, 0xe6,
        0xfa, 0xc2, 0x88, 0xe9, 0x59, 0xf4, 0x6a, 0xca, 0xb2, 0xd7, 0x2c, 0x48, 0x0d, 0x55, 0xbc, 0x0f,
        0x27, 0x57, 0x32, 0x52, 0x68, 0x3f, 0xe8, 0x01, 0xaa, 0x9e, 0x83, 0xd2, 0x23, 0xc3, 0xb4, 0x8c,
        0x17, 0x93, 0x70, 0x6b, 0xde, 0x0d, 0xc4, 0xaa, 0x36, 0x71, 0xc8, 0x83, 0x83, 0xb1, 0xe4, 0x1a,
        0x6e, 0x52, 0x8b, 0xd6, 0xbc, 0x02, 0xa6, 0x26, 0xea, 0x8d, 0xd5, 0x02,
    ]
}

const WHILE_VALID: i64 = 1650000000;
const AFTER_EXPIRY: i64 = 1700000000;

fn chain(current: &str, hops: u8) -> RedirectChain {
    RedirectChain {
        origin: "origin.example/start".to_string(),
        current: current.to_string(),
        hops_remaining: hops,
    }
}

fn response(status: StatusCode, meta: &str, body: &str) -> GeminiResponse {
    GeminiResponse { status, meta: meta.to_string(), body: body.as_bytes().to_vec() }
}

fn expect_done(outcome: Outcome) -> GeminiResponse {
    match outcome {
        Outcome::Done { response } => response,
        Outcome::Redirect { next } => panic!("redirected to {}", next.url()),
        Outcome::Fail { error } => panic!("failed with {:?}", error),
    }
}

fn expect_fail(outcome: Outcome) -> FetchError {
    match outcome {
        Outcome::Done { response } => panic!("done with {:?}", response),
        Outcome::Redirect { next } => panic!("redirected to {}", next.url()),
        Outcome::Fail { error } => error,
    }
}

/// Plays one hop: connect, accept the certificate, send, and receive `raw`.
fn hop(state: dioscuri::fetch::Connecting, store: &mut TrustStore, raw: &str) -> Outcome {
    let sending = state
        .connected(&example_certificate(), store, WHILE_VALID)
        .expect("the certificate is accepted");
    sending.sent().received(raw.as_bytes())
}

#[test]
fn a_fetch_begins_without_scheme_and_with_five_hops() {
    assert_eq!(MAX_REDIRECTS, 5);
    assert_eq!(dioscuri::fetch::GEMINI_PORT, 1965);
    for url in ["gemini://gemi.dev/a?b", "gemi.dev/a?b", "https://gemi.dev/a?b"] {
        let state = begin(&url.to_string());
        assert_eq!(state.url(), "gemi.dev/a?b");
        assert_eq!(state.host(), "gemi.dev");
        assert_eq!(state.hops_remaining(), 5);
    }
}

#[test]
fn a_failed_connection_names_the_host() {
    let state = begin(&"gemini://this_website_does_not_exist_999.au/x".to_string());
    assert_eq!(
        state.connect_failed(),
        FetchError::TransportFailure { host: "this_website_does_not_exist_999.au".to_string() }
    );
    assert_eq!(begin(&"a.example".to_string()).handshake_failed(), FetchError::TlsFailure);
}

#[test]
fn the_request_is_sent_only_after_the_certificate_was_accepted() {
    let mut store = TrustStore::new();
    let state = begin(&"gemini://www.example.com/page".to_string());
    let sending = state.connected(&example_certificate(), &mut store, WHILE_VALID).unwrap();
    assert_eq!(sending.request(), "gemini://www.example.com/page\r\n");
    assert!(store.record_for(&"www.example.com".to_string()).is_some());
    assert_eq!(
        begin(&"www.example.com".to_string())
            .connected(&example_certificate(), &mut store, WHILE_VALID)
            .unwrap()
            .send_failed(),
        FetchError::TlsFailure
    );
}

#[test]
fn a_refused_certificate_ends_the_fetch() {
    let mut store = TrustStore::new();
    let expired = begin(&"www.example.com".to_string()).connected(
        &example_certificate(),
        &mut store,
        AFTER_EXPIRY,
    );
    assert_eq!(
        expired.err(),
        Some(FetchError::CertRejected { reason: RejectReason::ExpiredAtPresentation })
    );
    let garbage = begin(&"www.example.com".to_string()).connected(&vec![0u8; 10], &mut store, 0);
    assert_eq!(
        garbage.err(),
        Some(FetchError::CertRejected { reason: RejectReason::InvalidCertificate })
    );
    assert!(store.record_for(&"www.example.com".to_string()).is_none());
}

#[test]
fn after_handshake_maps_each_verdict() {
    for kind in [AcceptKind::NewTrust, AcceptKind::Confirmed, AcceptKind::Renewed] {
        let next = after_handshake(begin(&"a.example/x".to_string()), Verdict::Accept { kind });
        assert_eq!(next.unwrap().request(), "gemini://a.example/x\r\n");
    }
    for reason in [
        RejectReason::InvalidCertificate,
        RejectReason::ExpiredAtPresentation,
        RejectReason::NoCommonName,
        RejectReason::KeyMismatch,
        RejectReason::KeyMismatchOnRenewal,
    ] {
        let next = after_handshake(begin(&"a.example/x".to_string()), Verdict::Reject { reason });
        assert_eq!(next.err(), Some(FetchError::CertRejected { reason }));
    }
}

#[test]
fn a_plain_response_is_delivered_as_it_is() {
    let mut store = TrustStore::new();
    let outcome = hop(
        begin(&"www.example.com".to_string()),
        &mut store,
        "20 text/gemini\r\n# Hello\r\nworld",
    );
    assert_eq!(
        expect_done(outcome),
        response(StatusCode::Success, "text/gemini", "# Hello\r\nworld")
    );
    let outcome = hop(begin(&"www.example.com".to_string()), &mut store, "51 Not here\r\n");
    assert_eq!(expect_done(outcome), response(StatusCode::FailureServerNotfound, "Not here", ""));
    let outcome = hop(begin(&"www.example.com".to_string()), &mut store, "10 Name?\r\n");
    assert_eq!(expect_done(outcome), response(StatusCode::InputExpected, "Name?", ""));
}

#[test]
fn a_malformed_response_is_a_failure() {
    let mut store = TrustStore::new();
    let outcome = hop(begin(&"www.example.com".to_string()), &mut store, "20 text/gemini");
    assert_eq!(expect_fail(outcome), FetchError::ResponseFormatError);
    let outcome = hop(begin(&"www.example.com".to_string()), &mut store, "");
    assert_eq!(expect_fail(outcome), FetchError::ResponseFormatError);
    let outcome = hop(begin(&"www.example.com".to_string()), &mut store, "99 what\r\n");
    assert_eq!(expect_fail(outcome), FetchError::UnknownStatus);
    let outcome = hop(begin(&"www.example.com".to_string()), &mut store, "abc\r\n");
    assert_eq!(expect_fail(outcome), FetchError::UnknownStatus);
}

#[test]
fn a_redirect_leads_to_a_new_connection_with_one_hop_less() {
    let mut store = TrustStore::new();
    let outcome = hop(
        begin(&"gemini://www.example.com/a/b".to_string()),
        &mut store,
        "31 gemini://other.example/c\r\n",
    );
    match outcome {
        Outcome::Redirect { next } => {
            assert_eq!(next.url(), "other.example/c");
            assert_eq!(next.host(), "other.example");
            assert_eq!(next.hops_remaining(), 4);
        },
        _ => panic!("a redirect was due"),
    }
    match handle_redirect(chain("www.example.com/a/b", 1), response(StatusCode::RedirectTemp, "../x", "")) {
        Outcome::Redirect { next } => {
            assert_eq!(next.url(), "www.example.com/x");
            assert_eq!(next.hops_remaining(), 0);
        },
        _ => panic!("a redirect was due"),
    }
}

#[test]
fn a_redirect_that_does_not_resolve_is_a_failure() {
    let outcome = handle_redirect(
        chain("www.example.com/", 3),
        response(StatusCode::RedirectTemp, "http://[::1", ""),
    );
    assert_eq!(expect_fail(outcome), FetchError::MalformedURL);
}

#[test]
fn without_hops_left_a_redirect_is_too_many() {
    for status in [StatusCode::RedirectTemp, StatusCode::RedirectPerm] {
        let outcome = handle_redirect(chain("www.example.com/", 0), response(status, "/next", ""));
        assert_eq!(expect_fail(outcome), FetchError::TooManyRedirects);
        // Also where the target would not resolve.
        let outcome =
            handle_redirect(chain("www.example.com/", 0), response(status, "http://[::1", ""));
        assert_eq!(expect_fail(outcome), FetchError::TooManyRedirects);
    }
    let outcome =
        handle_redirect(chain("www.example.com/", 0), response(StatusCode::Success, "text/gemini", "x"));
    assert_eq!(expect_done(outcome), response(StatusCode::Success, "text/gemini", "x"));
}

#[test]
fn endless_redirects_end_after_exactly_five_hops() {
    let mut store = TrustStore::new();
    let mut state = begin(&"gemini://www.example.com/0".to_string());
    let mut followed = 0;
    let error = loop {
        let raw = format!("30 /{}\r\n", followed + 1);
        match hop(state, &mut store, &raw) {
            Outcome::Redirect { next } => {
                followed += 1;
                assert_eq!(next.url(), &format!("www.example.com/{}", followed));
                assert_eq!(next.hops_remaining(), 5 - followed);
                assert!(followed <= 5, "a sixth redirect was followed");
                state = next;
            },
            Outcome::Fail { error } => break error,
            Outcome::Done { response } => panic!("done with {:?}", response),
        }
    };
    assert_eq!(error, FetchError::TooManyRedirects);
    assert_eq!(followed, 5);
}

#[test]
fn a_chain_that_ends_in_time_delivers_the_last_response() {
    let mut store = TrustStore::new();
    let mut state = begin(&"www.example.com/start".to_string());
    for n in 0..5 {
        match hop(state, &mut store, &format!("3{} step{}\r\n", n, n)) {
            Outcome::Redirect { next } => state = next,
            _ => panic!("a redirect was due"),
        }
    }
    assert_eq!(state.hops_remaining(), 0);
    assert_eq!(state.url(), "www.example.com/step4");
    let outcome = hop(state, &mut store, "20 text/gemini\r\nthere");
    assert_eq!(expect_done(outcome), response(StatusCode::Success, "text/gemini", "there"));
}

#[test]
fn every_error_has_its_diagnostic() {
    assert_eq!(
        FetchError::TransportFailure { host: "h".to_string() }.diagnostic(),
        "TcpStream failed to connect"
    );
    assert_eq!(FetchError::TlsFailure.diagnostic(), "Error on the TLS stream!");
    assert_eq!(
        FetchError::CertRejected { reason: RejectReason::KeyMismatch }.diagnostic(),
        "Certificate rejected by the trust store"
    );
    assert_eq!(FetchError::MalformedURL.diagnostic(), "Failed to resolve redirect");
    assert_eq!(FetchError::ResponseFormatError.diagnostic(), "Response does not have CRLF!");
    assert_eq!(FetchError::UnknownStatus.diagnostic(), "Server returned invalid status code!");
    assert_eq!(FetchError::TooManyRedirects.diagnostic(), "Too many redirects");
}

#[test]
fn the_read_allowance_ends_at_the_bound() {
    assert_eq!(MAX_RESPONSE_BYTES, 16 * 1024 * 1024);
    assert_eq!(read_allowance(0), MAX_RESPONSE_BYTES);
    assert_eq!(read_allowance(1), MAX_RESPONSE_BYTES - 1);
    assert_eq!(read_allowance(MAX_RESPONSE_BYTES - 1), 1);
    assert_eq!(read_allowance(MAX_RESPONSE_BYTES), 0);
    assert_eq!(read_allowance(MAX_RESPONSE_BYTES + 1), 0);
    assert_eq!(read_allowance(usize::MAX), 0);
}

#[test]
fn reading_by_the_allowance_never_passes_the_bound() {
    // A peer that never stops sending, read in chunks of 4000 bytes.
    let mut received: usize = 0;
    let mut reads = 0;
    loop {
        let left = read_allowance(received);
        if left == 0 {
            break;
        }
        received += left.min(4000);
        reads += 1;
        assert!(received <= MAX_RESPONSE_BYTES);
    }
    assert_eq!(received, MAX_RESPONSE_BYTES);
    assert_eq!(reads, MAX_RESPONSE_BYTES.div_ceil(4000));
}

#[test]
fn a_body_that_is_no_text_is_delivered_byte_for_byte() {
    let mut store = TrustStore::new();
    let mut raw = "20 image/png\r\n".as_bytes().to_vec();
    let body: Vec<u8> = vec![0x89, 0x50, 0x4e, 0x47, 0x0d, 0x0a, 0x1a, 0x0a, 0x00, 0xff, 0xfe];
    raw.extend_from_slice(&body);
    let sending = begin(&"www.example.com/logo.png".to_string())
        .connected(&example_certificate(), &mut store, WHILE_VALID)
        .unwrap();
    let delivered = expect_done(sending.sent().received(&raw));
    assert_eq!(delivered.status, StatusCode::Success);
    assert_eq!(delivered.meta, "image/png");
    assert_eq!(delivered.body, body);
}

#[test]
fn a_separator_in_the_query_changes_neither_host_nor_request() {
    for url in ["gemini://gemi.dev/page?u=http://x.org/y", "gemi.dev/page?u=http://x.org/y"] {
        let mut store = TrustStore::new();
        let state = begin(&url.to_string());
        assert_eq!(state.url(), "gemi.dev/page?u=http://x.org/y");
        assert_eq!(state.host(), "gemi.dev");
        let sending = state.connected(&example_certificate(), &mut store, WHILE_VALID).unwrap();
        assert_eq!(sending.request(), "gemini://gemi.dev/page?u=http://x.org/y\r\n");
    }
    assert_eq!(
        begin(&"gemini://gemi.dev/page?u=http://x.org/y".to_string()).connect_failed(),
        FetchError::TransportFailure { host: "gemi.dev".to_string() }
    );
}

#[test]
fn a_redirect_with_a_separator_in_its_query_is_followed_to_its_own_host() {
    let mut store = TrustStore::new();
    let outcome = hop(
        begin(&"gemini://gemi.dev/a?u=http://x.org/y".to_string()),
        &mut store,
        "30 /login?back=gemini://gemi.dev/a\r\n",
    );
    let next = match outcome {
        Outcome::Redirect { next } => next,
        _ => panic!("a redirect was due"),
    };
    assert_eq!(next.url(), "gemi.dev/login?back=gemini://gemi.dev/a");
    assert_eq!(next.host(), "gemi.dev");
    assert_eq!(next.hops_remaining(), 4);
    let sending = next.connected(&example_certificate(), &mut store, WHILE_VALID).unwrap();
    assert_eq!(sending.request(), "gemini://gemi.dev/login?back=gemini://gemi.dev/a\r\n");
    let outcome = sending.sent().received("31 gemini://other.example/?from=http://x.org/\r\n".as_bytes());
    match outcome {
        Outcome::Redirect { next } => {
            assert_eq!(next.url(), "other.example/?from=http://x.org/");
            assert_eq!(next.host(), "other.example");
            assert_eq!(next.hops_remaining(), 3);
        },
        _ => panic!("a redirect was due"),
    }
}

#[test]
fn the_request_after_a_relative_redirect() {
    let mut store = TrustStore::new();
    let outcome = hop(
        begin(&"gemini://gemi.dev/cgi-bin/wp.cgi/a".to_string()),
        &mut store,
        "30 ../bar.gmi\r\n",
    );
    let next = match outcome {
        Outcome::Redirect { next } => next,
        _ => panic!("a redirect was due"),
    };
    let sending = next.connected(&example_certificate(), &mut store, WHILE_VALID).unwrap();
    assert_eq!(sending.request(), "gemini://gemi.dev/cgi-bin/bar.gmi\r\n");
}

#[test]
fn a_failure_takes_the_shape_of_a_response() {
    assert_eq!(
        show_failure(&FetchError::UnknownStatus),
        (
            StatusCode::StatusUnknown,
            "Server returned invalid status code!".to_string(),
            "".to_string()
        )
    );
    assert_eq!(
        show_failure(&FetchError::ResponseFormatError),
        (StatusCode::ResponseError, "Response does not have CRLF!".to_string(), "".to_string())
    );
    assert_eq!(
        show_failure(&FetchError::TransportFailure { host: "h".to_string() }),
        (StatusCode::FailureClient, "".to_string(), "TcpStream failed to connect".to_string())
    );
    assert_eq!(
        show_failure(&FetchError::TooManyRedirects),
        (StatusCode::FailureClient, "".to_string(), "Too many redirects".to_string())
    );
    assert_eq!(
        show_failure(&FetchError::MalformedURL),
        (StatusCode::FailureClient, "".to_string(), "Failed to resolve redirect".to_string())
    );
    assert_eq!(
        show_failure(&FetchError::TlsFailure),
        (StatusCode::FailureClient, "".to_string(), "Error on the TLS stream!".to_string())
    );
    assert_eq!(
        show_failure(&FetchError::CertRejected { reason: RejectReason::KeyMismatch }),
        (
            StatusCode::FailureClient,
            "".to_string(),
            "Certificate rejected by the trust store".to_string()
        )
    );
}
