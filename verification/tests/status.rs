use dioscuri::status::StatusCode;

fn documented(code: i32) -> StatusCode {
    match code {
        10 => StatusCode::InputExpected,
        11 => StatusCode::InputSensitive,
        12 | 13 | 14 | 15 | 16 | 17 | 18 | 19 => StatusCode::InputExpected,
        20 | 21 | 22 | 23 | 24 | 25 | 26 | 27 | 28 | 29 => StatusCode::Success,
        30 => StatusCode::RedirectTemp,
        31 | 32 | 33 | 34 | 35 | 36 | 37 | 38 | 39 => StatusCode::RedirectPerm,
        40 => StatusCode::FailureServerTemp,
        41 => StatusCode::FailureServerUnavailable,
        42 => StatusCode::FailureServerCgiError,
        43 => StatusCode::FailureServerProxyError,
        44 => StatusCode::FailureServerSlowdown,
        45 | 46 | 47 | 48 | 49 => StatusCode::FailureServerTemp,
        50 => StatusCode::FailureServer,
        51 => StatusCode::FailureServerNotfound,
        52 => StatusCode::FailureServerGone,
        53 => StatusCode::FailureServerProxyrefused,
        54 | 55 | 56 | 57 | 58 => StatusCode::FailureServer,
        59 => StatusCode::FailureServerBadReq,
        60 => StatusCode::FailureCertNeeded,
        61 => StatusCode::FailureCertUnauthorized,
        62 => StatusCode::FailureCertInvalid,
        63 | 64 | 65 | 66 | 67 | 68 | 69 => StatusCode::FailureCertNeeded,
        _ => StatusCode::StatusUnknown,
    }
}

#[test]
fn every_code_from_10_to_69_has_its_documented_status() {
    let mut seen = 0;
    for code in 10..=69 {
        let status = StatusCode::from(code);
        assert_eq!(status, documented(code), "code {}", code);
        assert_ne!(status, StatusCode::StatusUnknown, "code {}", code);
        seen += 1;
    }
    assert_eq!(seen, 60);
}

#[test]
fn codes_outside_the_table_are_unknown() {
    for code in [i32::MIN, -69, -10, -1, 0, 1, 9, 70, 71, 99, 100, 1000, i32::MAX] {
        assert_eq!(StatusCode::from(code), StatusCode::StatusUnknown, "code {}", code);
    }
    for code in -200..10 {
        assert_eq!(StatusCode::from(code), StatusCode::StatusUnknown);
    }
    for code in 70..400 {
        assert_eq!(StatusCode::from(code), StatusCode::StatusUnknown);
    }
}

#[test]
fn the_edges_of_each_range() {
    assert_eq!(StatusCode::from(19), StatusCode::InputExpected);
    assert_eq!(StatusCode::from(20), StatusCode::Success);
    assert_eq!(StatusCode::from(29), StatusCode::Success);
    assert_eq!(StatusCode::from(30), StatusCode::RedirectTemp);
    assert_eq!(StatusCode::from(31), StatusCode::RedirectPerm);
    assert_eq!(StatusCode::from(39), StatusCode::RedirectPerm);
    assert_eq!(StatusCode::from(44), StatusCode::FailureServerSlowdown);
    assert_eq!(StatusCode::from(45), StatusCode::FailureServerTemp);
    assert_eq!(StatusCode::from(53), StatusCode::FailureServerProxyrefused);
    assert_eq!(StatusCode::from(54), StatusCode::FailureServer);
    assert_eq!(StatusCode::from(58), StatusCode::FailureServer);
    assert_eq!(StatusCode::from(59), StatusCode::FailureServerBadReq);
    assert_eq!(StatusCode::from(62), StatusCode::FailureCertInvalid);
    assert_eq!(StatusCode::from(63), StatusCode::FailureCertNeeded);
}

#[test]
fn every_status_has_its_name() {
    let names = [
        (StatusCode::InputExpected, "Input Expected"),
        (StatusCode::InputSensitive, "Input Sensitive"),
        (StatusCode::Success, "Success"),
        (StatusCode::RedirectTemp, "Temporary Redirect"),
        (StatusCode::RedirectPerm, "Permanent Redirect"),
        (StatusCode::FailureServerTemp, "Temporary Server Failure"),
        (StatusCode::FailureServerUnavailable, "Server Unavailable"),
        (StatusCode::FailureServerCgiError, "CGI Error"),
        (StatusCode::FailureServerProxyError, "Proxy Error"),
        (StatusCode::FailureServerSlowdown, "Server Slowdown"),
        (StatusCode::FailureServer, "Permanent Server Failure"),
        (StatusCode::FailureServerNotfound, "Not Found"),
        (StatusCode::FailureServerGone, "Gone"),
        (StatusCode::FailureServerProxyrefused, "Proxy Refused"),
        (StatusCode::FailureServerBadReq, "Bad Request"),
        (StatusCode::FailureCertNeeded, "Client Certificate Needed"),
        (StatusCode::FailureCertUnauthorized, "Client Certificate Unauthorized"),
        (StatusCode::FailureCertInvalid, "Client Certificate Invalid"),
        (StatusCode::StatusUnknown, "Unknown Status"),
        (StatusCode::FailureClient, "Client Failure"),
        (StatusCode::ResponseError, "Response Error"),
    ];
    for (status, name) in names {
        assert_eq!(status.as_str(), name);
    }
}

#[test]
fn only_the_two_redirects_redirect() {
    for code in 10..=69 {
        let status = StatusCode::from(code);
        assert_eq!(status.is_redirect(), (30..=39).contains(&code), "code {}", code);
    }
    assert!(!StatusCode::StatusUnknown.is_redirect());
    assert!(!StatusCode::FailureClient.is_redirect());
    assert!(!StatusCode::ResponseError.is_redirect());
}
