//! The closed set of response statuses and the table that maps a numeric
//! code to one of them.

use vstd::prelude::*;

verus! {

/// Every status a response can carry, plus the client-side sentinels
/// `FailureClient` and `ResponseError`.
#[derive(Debug, Clone, Copy, PartialEq, Eq, Structural)]
pub enum StatusCode {
    InputExpected,
    InputSensitive,
    Success,
    RedirectTemp,
    RedirectPerm,
    FailureServerTemp,
    FailureServerUnavailable,
    FailureServerCgiError,
    FailureServerProxyError,
    FailureServerSlowdown,
    FailureServer,
    FailureServerNotfound,
    FailureServerGone,
    FailureServerProxyrefused,
    FailureServerBadReq,
    FailureCertNeeded,
    FailureCertUnauthorized,
    FailureCertInvalid,
    StatusUnknown,
    FailureClient,
    ResponseError,
}

/// The status table: which status each integer code stands for. Codes
/// outside 10..=69 stand for `StatusUnknown`.
pub open spec fn status_of_code(code: int) -> StatusCode {
    if code == 10 {
        StatusCode::InputExpected
    } else if code == 11 {
        StatusCode::InputSensitive
    } else if 12 <= code <= 19 {
        StatusCode::InputExpected
    } else if 20 <= code <= 29 {
        StatusCode::Success
    } else if code == 30 {
        StatusCode::RedirectTemp
    } else if 31 <= code <= 39 {
        StatusCode::RedirectPerm
    } else if code == 40 {
        StatusCode::FailureServerTemp
    } else if code == 41 {
        StatusCode::FailureServerUnavailable
    } else if code == 42 {
        StatusCode::FailureServerCgiError
    } else if code == 43 {
        StatusCode::FailureServerProxyError
    } else if code == 44 {
        StatusCode::FailureServerSlowdown
    } else if 45 <= code <= 49 {
        StatusCode::FailureServerTemp
    } else if code == 50 {
        StatusCode::FailureServer
    } else if code == 51 {
        StatusCode::FailureServerNotfound
    } else if code == 52 {
        StatusCode::FailureServerGone
    } else if code == 53 {
        StatusCode::FailureServerProxyrefused
    } else if 54 <= code <= 58 {
        StatusCode::FailureServer
    } else if code == 59 {
        StatusCode::FailureServerBadReq
    } else if code == 60 {
        StatusCode::FailureCertNeeded
    } else if code == 61 {
        StatusCode::FailureCertUnauthorized
    } else if code == 62 {
        StatusCode::FailureCertInvalid
    } else if 63 <= code <= 69 {
        StatusCode::FailureCertNeeded
    } else {
        StatusCode::StatusUnknown
    }
}

/// The human-readable name of a status.
pub open spec fn status_name(status: StatusCode) -> Seq<char> {
    match status {
        StatusCode::InputExpected => "Input Expected"@,
        StatusCode::InputSensitive => "Input Sensitive"@,
        StatusCode::Success => "Success"@,
        StatusCode::RedirectTemp => "Temporary Redirect"@,
        StatusCode::RedirectPerm => "Permanent Redirect"@,
        StatusCode::FailureServerTemp => "Temporary Server Failure"@,
        StatusCode::FailureServerUnavailable => "Server Unavailable"@,
        StatusCode::FailureServerCgiError => "CGI Error"@,
        StatusCode::FailureServerProxyError => "Proxy Error"@,
        StatusCode::FailureServerSlowdown => "Server Slowdown"@,
        StatusCode::FailureServer => "Permanent Server Failure"@,
        StatusCode::FailureServerNotfound => "Not Found"@,
        StatusCode::FailureServerGone => "Gone"@,
        StatusCode::FailureServerProxyrefused => "Proxy Refused"@,
        StatusCode::FailureServerBadReq => "Bad Request"@,
        StatusCode::FailureCertNeeded => "Client Certificate Needed"@,
        StatusCode::FailureCertUnauthorized => "Client Certificate Unauthorized"@,
        StatusCode::FailureCertInvalid => "Client Certificate Invalid"@,
        StatusCode::StatusUnknown => "Unknown Status"@,
        StatusCode::FailureClient => "Client Failure"@,
        StatusCode::ResponseError => "Response Error"@,
    }
}

impl StatusCode {
    /// Whether the status asks the client to fetch another location.
    pub open spec fn spec_is_redirect(self) -> bool {
        self == StatusCode::RedirectTemp || self == StatusCode::RedirectPerm
    }

    /// Whether the status asks the client to fetch another location.
    #[verifier::when_used_as_spec(spec_is_redirect)]
    pub fn is_redirect(self) -> (r: bool)
        ensures
            r == self.spec_is_redirect(),
    {
        match self {
            StatusCode::RedirectTemp => true,
            StatusCode::RedirectPerm => true,
            _ => false,
        }
    }

    /// The human-readable name of the status.
    pub fn as_str(&self) -> (name: &'static str)
        ensures
            name@ == status_name(*self),
    {
        match self {
            StatusCode::InputExpected => "Input Expected",
            StatusCode::InputSensitive => "Input Sensitive",
            StatusCode::Success => "Success",
            StatusCode::RedirectTemp => "Temporary Redirect",
            StatusCode::RedirectPerm => "Permanent Redirect",
            StatusCode::FailureServerTemp => "Temporary Server Failure",
            StatusCode::FailureServerUnavailable => "Server Unavailable",
            StatusCode::FailureServerCgiError => "CGI Error",
            StatusCode::FailureServerProxyError => "Proxy Error",
            StatusCode::FailureServerSlowdown => "Server Slowdown",
            StatusCode::FailureServer => "Permanent Server Failure",
            StatusCode::FailureServerNotfound => "Not Found",
            StatusCode::FailureServerGone => "Gone",
            StatusCode::FailureServerProxyrefused => "Proxy Refused",
            StatusCode::FailureServerBadReq => "Bad Request",
            StatusCode::FailureCertNeeded => "Client Certificate Needed",
            StatusCode::FailureCertUnauthorized => "Client Certificate Unauthorized",
            StatusCode::FailureCertInvalid => "Client Certificate Invalid",
            StatusCode::StatusUnknown => "Unknown Status",
            StatusCode::FailureClient => "Client Failure",
            StatusCode::ResponseError => "Response Error",
        }
    }
}

impl From<i32> for StatusCode {
    /// Looks the code up in the status table. Total: every `i32` has a
    /// status, and anything outside 10..=69 is `StatusUnknown`.
    fn from(code: i32) -> (status: Self)
        ensures
            status == status_of_code(code as int),
    {
        match code {
            10 => StatusCode::InputExpected,
            11 => StatusCode::InputSensitive,
            12..=19 => StatusCode::InputExpected,
            20..=29 => StatusCode::Success,
            30 => StatusCode::RedirectTemp,
            31..=39 => StatusCode::RedirectPerm,
            40 => StatusCode::FailureServerTemp,
            41 => StatusCode::FailureServerUnavailable,
            42 => StatusCode::FailureServerCgiError,
            43 => StatusCode::FailureServerProxyError,
            44 => StatusCode::FailureServerSlowdown,
            45..=49 => StatusCode::FailureServerTemp,
            50 => StatusCode::FailureServer,
            51 => StatusCode::FailureServerNotfound,
            52 => StatusCode::FailureServerGone,
            53 => StatusCode::FailureServerProxyrefused,
            54..=58 => StatusCode::FailureServer,
            59 => StatusCode::FailureServerBadReq,
            60 => StatusCode::FailureCertNeeded,
            61 => StatusCode::FailureCertUnauthorized,
            62 => StatusCode::FailureCertInvalid,
            63..=69 => StatusCode::FailureCertNeeded,
            _ => StatusCode::StatusUnknown,
        }
    }
}

impl vstd::std_specs::convert::FromSpecImpl<i32> for StatusCode {
    open spec fn obeys_from_spec() -> bool {
        true
    }

    open spec fn from_spec(code: i32) -> Self {
        status_of_code(code as int)
    }
}

/// The status table, range by range: every code from 10 to 69 has the
/// status of its range, and no code in that span is unknown.
pub proof fn lemma_status_table(code: int)
    requires
        10 <= code <= 69,
    ensures
        code == 11 ==> status_of_code(code) == StatusCode::InputSensitive,
        10 <= code <= 19 && code != 11 ==> status_of_code(code) == StatusCode::InputExpected,
        20 <= code <= 29 ==> status_of_code(code) == StatusCode::Success,
        code == 30 ==> status_of_code(code) == StatusCode::RedirectTemp,
        31 <= code <= 39 ==> status_of_code(code) == StatusCode::RedirectPerm,
        code == 40 || 45 <= code <= 49 ==> status_of_code(code) == StatusCode::FailureServerTemp,
        code == 41 ==> status_of_code(code) == StatusCode::FailureServerUnavailable,
        code == 42 ==> status_of_code(code) == StatusCode::FailureServerCgiError,
        code == 43 ==> status_of_code(code) == StatusCode::FailureServerProxyError,
        code == 44 ==> status_of_code(code) == StatusCode::FailureServerSlowdown,
        code == 50 || 54 <= code <= 58 ==> status_of_code(code) == StatusCode::FailureServer,
        code == 51 ==> status_of_code(code) == StatusCode::FailureServerNotfound,
        code == 52 ==> status_of_code(code) == StatusCode::FailureServerGone,
        code == 53 ==> status_of_code(code) == StatusCode::FailureServerProxyrefused,
        code == 59 ==> status_of_code(code) == StatusCode::FailureServerBadReq,
        code == 60 || 63 <= code <= 69 ==> status_of_code(code) == StatusCode::FailureCertNeeded,
        code == 61 ==> status_of_code(code) == StatusCode::FailureCertUnauthorized,
        code == 62 ==> status_of_code(code) == StatusCode::FailureCertInvalid,
        status_of_code(code) != StatusCode::StatusUnknown,
        status_of_code(code) != StatusCode::FailureClient,
        status_of_code(code) != StatusCode::ResponseError,
{
}

/// Outside 10..=69 every code is unknown.
pub proof fn lemma_status_out_of_range(code: int)
    requires
        code < 10 || code > 69,
    ensures
        status_of_code(code) == StatusCode::StatusUnknown,
{
}

} // verus!
