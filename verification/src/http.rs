//! The HTTP vocabulary: methods, protocol versions and the status
//! catalogue, with their exact string and numeric forms.

use vstd::prelude::*;
use crate::strutil;

verus! {

/// An HTTP request method. All nine tokens are recognized; which of them
/// the server actually serves is a policy decision made elsewhere.
#[derive(Debug, Clone, Copy, PartialEq, Eq, Hash, Structural)]
pub enum HttpMethod {
    GET,
    HEAD,
    POST,
    PUT,
    DELETE,
    CONNECT,
    OPTIONS,
    TRACE,
    PATCH,
}

/// The exact token of a method.
pub open spec fn spec_method_str(m: HttpMethod) -> Seq<char> {
    match m {
        HttpMethod::GET => "GET"@,
        HttpMethod::HEAD => "HEAD"@,
        HttpMethod::POST => "POST"@,
        HttpMethod::PUT => "PUT"@,
        HttpMethod::DELETE => "DELETE"@,
        HttpMethod::CONNECT => "CONNECT"@,
        HttpMethod::OPTIONS => "OPTIONS"@,
        HttpMethod::TRACE => "TRACE"@,
        HttpMethod::PATCH => "PATCH"@,
    }
}

/// The method a token denotes: an exact, case-sensitive match, or nothing.
pub open spec fn spec_method_from(s: Seq<char>) -> Option<HttpMethod> {
    if s == "GET"@ {
        Some(HttpMethod::GET)
    } else if s == "HEAD"@ {
        Some(HttpMethod::HEAD)
    } else if s == "POST"@ {
        Some(HttpMethod::POST)
    } else if s == "PUT"@ {
        Some(HttpMethod::PUT)
    } else if s == "DELETE"@ {
        Some(HttpMethod::DELETE)
    } else if s == "CONNECT"@ {
        Some(HttpMethod::CONNECT)
    } else if s == "OPTIONS"@ {
        Some(HttpMethod::OPTIONS)
    } else if s == "TRACE"@ {
        Some(HttpMethod::TRACE)
    } else if s == "PATCH"@ {
        Some(HttpMethod::PATCH)
    } else {
        None
    }
}

/// The methods this server serves; everything else is rejected with 405.
pub open spec fn spec_is_supported_method(m: HttpMethod) -> bool {
    m == HttpMethod::GET || m == HttpMethod::HEAD || m == HttpMethod::OPTIONS || m
        == HttpMethod::TRACE
}

impl HttpMethod {
    /// The exact token of this method.
    pub fn as_str(&self) -> (r: &'static str)
        ensures
            r@ == spec_method_str(*self),
    {
        match self {
            Self::GET => "GET",
            Self::HEAD => "HEAD",
            Self::POST => "POST",
            Self::PUT => "PUT",
            Self::DELETE => "DELETE",
            Self::CONNECT => "CONNECT",
            Self::OPTIONS => "OPTIONS",
            Self::TRACE => "TRACE",
            Self::PATCH => "PATCH",
        }
    }

    /// Recognize a method token; exact match only.
    pub fn from_str(method_str: &str) -> (r: Option<Self>)
        ensures
            r == spec_method_from(method_str@),
    {
        if strutil::str_eq(method_str, "GET") {
            Some(Self::GET)
        } else if strutil::str_eq(method_str, "HEAD") {
            Some(Self::HEAD)
        } else if strutil::str_eq(method_str, "POST") {
            Some(Self::POST)
        } else if strutil::str_eq(method_str, "PUT") {
            Some(Self::PUT)
        } else if strutil::str_eq(method_str, "DELETE") {
            Some(Self::DELETE)
        } else if strutil::str_eq(method_str, "CONNECT") {
            Some(Self::CONNECT)
        } else if strutil::str_eq(method_str, "OPTIONS") {
            Some(Self::OPTIONS)
        } else if strutil::str_eq(method_str, "TRACE") {
            Some(Self::TRACE)
        } else if strutil::str_eq(method_str, "PATCH") {
            Some(Self::PATCH)
        } else {
            None
        }
    }

    /// All nine methods of the vocabulary, in their fixed order.
    pub fn to_vec(&self) -> (r: Vec<Self>)
        ensures
            r@ == seq![
                Self::GET,
                Self::HEAD,
                Self::POST,
                Self::PUT,
                Self::DELETE,
                Self::CONNECT,
                Self::OPTIONS,
                Self::TRACE,
                Self::PATCH,
            ],
    {
        let mut r: Vec<Self> = Vec::new();
        r.push(Self::GET);
        r.push(Self::HEAD);
        r.push(Self::POST);
        r.push(Self::PUT);
        r.push(Self::DELETE);
        r.push(Self::CONNECT);
        r.push(Self::OPTIONS);
        r.push(Self::TRACE);
        r.push(Self::PATCH);
        proof {
            assert(r@ =~= seq![
                Self::GET,
                Self::HEAD,
                Self::POST,
                Self::PUT,
                Self::DELETE,
                Self::CONNECT,
                Self::OPTIONS,
                Self::TRACE,
                Self::PATCH,
            ]);
        }
        r
    }

    /// The methods the server serves: they read state and change nothing.
    pub fn immutable() -> (r: Vec<Self>)
        ensures
            r@ == seq![Self::GET, Self::HEAD, Self::OPTIONS, Self::TRACE],
            forall|i: int| 0 <= i < r@.len() ==> spec_is_supported_method(#[trigger] r@[i]),
    {
        let mut r: Vec<Self> = Vec::new();
        r.push(Self::GET);
        r.push(Self::HEAD);
        r.push(Self::OPTIONS);
        r.push(Self::TRACE);
        proof {
            assert(r@ =~= seq![Self::GET, Self::HEAD, Self::OPTIONS, Self::TRACE]);
        }
        r
    }

    /// The methods the server rejects: they could change state.
    pub fn mutable() -> (r: Vec<Self>)
        ensures
            r@ == seq![Self::POST, Self::PUT, Self::DELETE, Self::PATCH, Self::CONNECT],
            forall|i: int| 0 <= i < r@.len() ==> !spec_is_supported_method(#[trigger] r@[i]),
    {
        let mut r: Vec<Self> = Vec::new();
        r.push(Self::POST);
        r.push(Self::PUT);
        r.push(Self::DELETE);
        r.push(Self::PATCH);
        r.push(Self::CONNECT);
        proof {
            assert(r@ =~= seq![Self::POST, Self::PUT, Self::DELETE, Self::PATCH, Self::CONNECT]);
        }
        r
    }

    /// This method is one the server serves.
    pub fn is_supported(&self) -> (r: bool)
        ensures
            r == spec_is_supported_method(*self),
    {
        match self {
            Self::GET => true,
            Self::HEAD => true,
            Self::OPTIONS => true,
            Self::TRACE => true,
            _ => false,
        }
    }

    /// Join the tokens of `methods` with `", "`.
    pub fn comma_separated(methods: &Vec<Self>) -> (r: String)
        ensures
            r@ == spec_comma_separated(methods@),
    {
        let n: usize = methods.len();
        let mut r: String = String::new();
        let mut i: usize = 0;
        while i < n
            invariant
                n == methods@.len(),
                i <= n,
                r@ == spec_comma_separated(methods@.take(i as int)),
            decreases n - i,
        {
            if i > 0 {
                r.append(", ");
            }
            r.append(methods[i].as_str());
            i = i + 1;
            proof {
                assert(methods@.take(i as int).drop_last() =~= methods@.take(i as int - 1));
            }
        }
        proof {
            assert(methods@.take(n as int) =~= methods@);
        }
        r
    }
}

/// The tokens of `ms` joined with `", "`.
pub open spec fn spec_comma_separated(ms: Seq<HttpMethod>) -> Seq<char>
    decreases ms.len(),
{
    if ms.len() == 0 {
        Seq::empty()
    } else if ms.len() == 1 {
        spec_method_str(ms[0])
    } else {
        spec_comma_separated(ms.drop_last()) + ", "@ + spec_method_str(ms.last())
    }
}

/// Recognizing the token of a method gives that method back: the method
/// vocabulary round-trips through its string form.
pub proof fn lemma_method_round_trip(m: HttpMethod)
    ensures
        spec_method_from(spec_method_str(m)) == Some(m),
{
    broadcast use vstd::string::group_string_axioms;

    reveal_strlit("GET");
    reveal_strlit("HEAD");
    reveal_strlit("POST");
    reveal_strlit("PUT");
    reveal_strlit("DELETE");
    reveal_strlit("CONNECT");
    reveal_strlit("OPTIONS");
    reveal_strlit("TRACE");
    reveal_strlit("PATCH");
    assert("GET"@.len() == 3 && "GET"@[0] == 'G');
    assert("HEAD"@.len() == 4 && "HEAD"@[0] == 'H');
    assert("POST"@.len() == 4 && "POST"@[0] == 'P');
    assert("PUT"@.len() == 3 && "PUT"@[0] == 'P');
    assert("DELETE"@.len() == 6 && "DELETE"@[0] == 'D');
    assert("CONNECT"@.len() == 7 && "CONNECT"@[0] == 'C');
    assert("OPTIONS"@.len() == 7 && "OPTIONS"@[0] == 'O');
    assert("TRACE"@.len() == 5 && "TRACE"@[0] == 'T');
    assert("PATCH"@.len() == 5 && "PATCH"@[0] == 'P');
}

/// An HTTP protocol version. Tokens for the newer framings are recognized
/// as strings only; every generated response speaks 1.1.
#[derive(Debug, Clone, Copy, PartialEq, Eq, Hash, Structural)]
pub enum HttpVersion {
    Http10,
    Http11,
    Http20,
    Http30,
}

/// The exact wire form of a version.
pub open spec fn spec_version_str(v: HttpVersion) -> Seq<char> {
    match v {
        HttpVersion::Http10 => "HTTP/1.0"@,
        HttpVersion::Http11 => "HTTP/1.1"@,
        HttpVersion::Http20 => "HTTP/2.0"@,
        HttpVersion::Http30 => "HTTP/3.0"@,
    }
}

/// The version a bare number token denotes, or nothing.
pub open spec fn spec_version_from(s: Seq<char>) -> Option<HttpVersion> {
    if s == "1.0"@ {
        Some(HttpVersion::Http10)
    } else if s == "1.1"@ {
        Some(HttpVersion::Http11)
    } else if s == "2.0"@ {
        Some(HttpVersion::Http20)
    } else if s == "3.0"@ {
        Some(HttpVersion::Http30)
    } else {
        None
    }
}

impl HttpVersion {
    /// The exact wire form of this version.
    pub fn as_str(&self) -> (r: &'static str)
        ensures
            r@ == spec_version_str(*self),
    {
        match self {
            HttpVersion::Http10 => "HTTP/1.0",
            HttpVersion::Http11 => "HTTP/1.1",
            HttpVersion::Http20 => "HTTP/2.0",
            HttpVersion::Http30 => "HTTP/3.0",
        }
    }

    /// Recognize a bare version number token; exact match only.
    pub fn from_str(version_str: &str) -> (r: Option<HttpVersion>)
        ensures
            r == spec_version_from(version_str@),
    {
        if strutil::str_eq(version_str, "1.0") {
            Some(HttpVersion::Http10)
        } else if strutil::str_eq(version_str, "1.1") {
            Some(HttpVersion::Http11)
        } else if strutil::str_eq(version_str, "2.0") {
            Some(HttpVersion::Http20)
        } else if strutil::str_eq(version_str, "3.0") {
            Some(HttpVersion::Http30)
        } else {
            None
        }
    }
}

/// An HTTP status: the full catalogue, each with its numeric code and its
/// fixed reason phrase.
#[derive(Debug, Clone, Copy, PartialEq, Eq, Hash, Structural)]
pub enum HttpStatus {
    Continue,
    SwitchingProtocols,
    Processing,
    EarlyHints,
    OK,
    Created,
    Accepted,
    NonAuthoritativeInformation,
    NoContent,
    ResetContent,
    PartialContent,
    MultiStatus,
    AlreadyReported,
    IMUsed,
    MovedPermanently,
    Found,
    SeeOther,
    NotModified,
    UseProxy,
    TemporaryRedirect,
    PermanentRedirect,
    BadRequest,
    Unauthorized,
    PaymentRequired,
    Forbidden,
    NotFound,
    MethodNotAllowed,
    NotAcceptable,
    ProxyAuthenticationRequired,
    RequestTimeout,
    Conflict,
    Gone,
    LengthRequired,
    PreconditionFailed,
    PayloadTooLarge,
    URITooLong,
    UnsupportedMediaType,
    RangeNotSatisfiable,
    ExpectationFailed,
    ImATeapot,
    MisdirectedRequest,
    UnprocessableEntity,
    Locked,
    FailedDependency,
    TooEarly,
    UpgradeRequired,
    PreconditionRequired,
    TooManyRequests,
    RequestHeaderFieldsTooLarge,
    UnavailableForLegalReasons,
    InternalServerError,
    NotImplemented,
    BadGateway,
    ServiceUnavailable,
    GatewayTimeout,
    HTTPVersionNotSupported,
    VariantAlsoNegotiates,
    InsufficientStorage,
    LoopDetected,
    NotExtended,
    NetworkAuthenticationRequired,
}

/// The numeric code of a status.
pub open spec fn spec_status_code(s: HttpStatus) -> u16 {
    match s {
            HttpStatus::Continue => 100,
            HttpStatus::SwitchingProtocols => 101,
            HttpStatus::Processing => 102,
            HttpStatus::EarlyHints => 103,
            HttpStatus::OK => 200,
            HttpStatus::Created => 201,
            HttpStatus::Accepted => 202,
            HttpStatus::NonAuthoritativeInformation => 203,
            HttpStatus::NoContent => 204,
            HttpStatus::ResetContent => 205,
            HttpStatus::PartialContent => 206,
            HttpStatus::MultiStatus => 207,
            HttpStatus::AlreadyReported => 208,
            HttpStatus::IMUsed => 226,
            HttpStatus::MovedPermanently => 301,
            HttpStatus::Found => 302,
            HttpStatus::SeeOther => 303,
            HttpStatus::NotModified => 304,
            HttpStatus::UseProxy => 305,
            HttpStatus::TemporaryRedirect => 307,
            HttpStatus::PermanentRedirect => 308,
            HttpStatus::BadRequest => 400,
            HttpStatus::Unauthorized => 401,
            HttpStatus::PaymentRequired => 402,
            HttpStatus::Forbidden => 403,
            HttpStatus::NotFound => 404,
            HttpStatus::MethodNotAllowed => 405,
            HttpStatus::NotAcceptable => 406,
            HttpStatus::ProxyAuthenticationRequired => 407,
            HttpStatus::RequestTimeout => 408,
            HttpStatus::Conflict => 409,
            HttpStatus::Gone => 410,
            HttpStatus::LengthRequired => 411,
            HttpStatus::PreconditionFailed => 412,
            HttpStatus::PayloadTooLarge => 413,
            HttpStatus::URITooLong => 414,
            HttpStatus::UnsupportedMediaType => 415,
            HttpStatus::RangeNotSatisfiable => 416,
            HttpStatus::ExpectationFailed => 417,
            HttpStatus::ImATeapot => 418,
            HttpStatus::MisdirectedRequest => 421,
            HttpStatus::UnprocessableEntity => 422,
            HttpStatus::Locked => 423,
            HttpStatus::FailedDependency => 424,
            HttpStatus::TooEarly => 425,
            HttpStatus::UpgradeRequired => 426,
            HttpStatus::PreconditionRequired => 428,
            HttpStatus::TooManyRequests => 429,
            HttpStatus::RequestHeaderFieldsTooLarge => 431,
            HttpStatus::UnavailableForLegalReasons => 451,
            HttpStatus::InternalServerError => 500,
            HttpStatus::NotImplemented => 501,
            HttpStatus::BadGateway => 502,
            HttpStatus::ServiceUnavailable => 503,
            HttpStatus::GatewayTimeout => 504,
            HttpStatus::HTTPVersionNotSupported => 505,
            HttpStatus::VariantAlsoNegotiates => 506,
            HttpStatus::InsufficientStorage => 507,
            HttpStatus::LoopDetected => 508,
            HttpStatus::NotExtended => 510,
            HttpStatus::NetworkAuthenticationRequired => 511,
    }
}

/// The fixed reason phrase of a status.
pub open spec fn spec_status_message(s: HttpStatus) -> Seq<char> {
    match s {
            HttpStatus::Continue => "Continue"@,
            HttpStatus::SwitchingProtocols => "Switching Protocols"@,
            HttpStatus::Processing => "Processing"@,
            HttpStatus::EarlyHints => "Early Hints"@,
            HttpStatus::OK => "OK"@,
            HttpStatus::Created => "Created"@,
            HttpStatus::Accepted => "Accepted"@,
            HttpStatus::NonAuthoritativeInformation => "Non-Authoritative Information"@,
            HttpStatus::NoContent => "No Content"@,
            HttpStatus::ResetContent => "Reset Content"@,
            HttpStatus::PartialContent => "Partial Content"@,
            HttpStatus::MultiStatus => "Multi-Status"@,
            HttpStatus::AlreadyReported => "Already Reported"@,
            HttpStatus::IMUsed => "IM Used"@,
            HttpStatus::MovedPermanently => "Moved Permanently"@,
            HttpStatus::Found => "Found"@,
            HttpStatus::SeeOther => "See Other"@,
            HttpStatus::NotModified => "Not Modified"@,
            HttpStatus::UseProxy => "Use Proxy"@,
            HttpStatus::TemporaryRedirect => "Temporary Redirect"@,
            HttpStatus::PermanentRedirect => "Permanent Redirect"@,
            HttpStatus::BadRequest => "Bad Request"@,
            HttpStatus::Unauthorized => "Unauthorized"@,
            HttpStatus::PaymentRequired => "Payment Required"@,
            HttpStatus::Forbidden => "Forbidden"@,
            HttpStatus::NotFound => "Not Found"@,
            HttpStatus::MethodNotAllowed => "Method Not Allowed"@,
            HttpStatus::NotAcceptable => "Not Acceptable"@,
            HttpStatus::ProxyAuthenticationRequired => "Proxy Authentication Required"@,
            HttpStatus::RequestTimeout => "Request Timeout"@,
            HttpStatus::Conflict => "Conflict"@,
            HttpStatus::Gone => "Gone"@,
            HttpStatus::LengthRequired => "Length Required"@,
            HttpStatus::PreconditionFailed => "Precondition Failed"@,
            HttpStatus::PayloadTooLarge => "Payload Too Large"@,
            HttpStatus::URITooLong => "URI Too Long"@,
            HttpStatus::UnsupportedMediaType => "Unsupported Media Type"@,
            HttpStatus::RangeNotSatisfiable => "Range Not Satisfiable"@,
            HttpStatus::ExpectationFailed => "Expectation Failed"@,
            HttpStatus::ImATeapot => "I'm a teapot"@,
            HttpStatus::MisdirectedRequest => "Misdirected Request"@,
            HttpStatus::UnprocessableEntity => "Unprocessable Entity"@,
            HttpStatus::Locked => "Locked"@,
            HttpStatus::FailedDependency => "Failed Dependency"@,
            HttpStatus::TooEarly => "Too Early"@,
            HttpStatus::UpgradeRequired => "Upgrade Required"@,
            HttpStatus::PreconditionRequired => "Precondition Required"@,
            HttpStatus::TooManyRequests => "Too Many Requests"@,
            HttpStatus::RequestHeaderFieldsTooLarge => "Request Header Fields Too Large"@,
            HttpStatus::UnavailableForLegalReasons => "Unavailable For Legal Reasons"@,
            HttpStatus::InternalServerError => "Internal Server Error"@,
            HttpStatus::NotImplemented => "Not Implemented"@,
            HttpStatus::BadGateway => "Bad Gateway"@,
            HttpStatus::ServiceUnavailable => "Service Unavailable"@,
            HttpStatus::GatewayTimeout => "Gateway Timeout"@,
            HttpStatus::HTTPVersionNotSupported => "HTTP Version Not Supported"@,
            HttpStatus::VariantAlsoNegotiates => "Variant Also Negotiates"@,
            HttpStatus::InsufficientStorage => "Insufficient Storage"@,
            HttpStatus::LoopDetected => "Loop Detected"@,
            HttpStatus::NotExtended => "Not Extended"@,
            HttpStatus::NetworkAuthenticationRequired => "Network Authentication Required"@,
    }
}

impl HttpStatus {
    /// The numeric code of this status.
    pub fn to_code(&self) -> (r: u16)
        ensures
            r == spec_status_code(*self),
    {
        match self {
            HttpStatus::Continue => 100,
            HttpStatus::SwitchingProtocols => 101,
            HttpStatus::Processing => 102,
            HttpStatus::EarlyHints => 103,
            HttpStatus::OK => 200,
            HttpStatus::Created => 201,
            HttpStatus::Accepted => 202,
            HttpStatus::NonAuthoritativeInformation => 203,
            HttpStatus::NoContent => 204,
            HttpStatus::ResetContent => 205,
            HttpStatus::PartialContent => 206,
            HttpStatus::MultiStatus => 207,
            HttpStatus::AlreadyReported => 208,
            HttpStatus::IMUsed => 226,
            HttpStatus::MovedPermanently => 301,
            HttpStatus::Found => 302,
            HttpStatus::SeeOther => 303,
            HttpStatus::NotModified => 304,
            HttpStatus::UseProxy => 305,
            HttpStatus::TemporaryRedirect => 307,
            HttpStatus::PermanentRedirect => 308,
            HttpStatus::BadRequest => 400,
            HttpStatus::Unauthorized => 401,
            HttpStatus::PaymentRequired => 402,
            HttpStatus::Forbidden => 403,
            HttpStatus::NotFound => 404,
            HttpStatus::MethodNotAllowed => 405,
            HttpStatus::NotAcceptable => 406,
            HttpStatus::ProxyAuthenticationRequired => 407,
            HttpStatus::RequestTimeout => 408,
            HttpStatus::Conflict => 409,
            HttpStatus::Gone => 410,
            HttpStatus::LengthRequired => 411,
            HttpStatus::PreconditionFailed => 412,
            HttpStatus::PayloadTooLarge => 413,
            HttpStatus::URITooLong => 414,
            HttpStatus::UnsupportedMediaType => 415,
            HttpStatus::RangeNotSatisfiable => 416,
            HttpStatus::ExpectationFailed => 417,
            HttpStatus::ImATeapot => 418,
            HttpStatus::MisdirectedRequest => 421,
            HttpStatus::UnprocessableEntity => 422,
            HttpStatus::Locked => 423,
            HttpStatus::FailedDependency => 424,
            HttpStatus::TooEarly => 425,
            HttpStatus::UpgradeRequired => 426,
            HttpStatus::PreconditionRequired => 428,
            HttpStatus::TooManyRequests => 429,
            HttpStatus::RequestHeaderFieldsTooLarge => 431,
            HttpStatus::UnavailableForLegalReasons => 451,
            HttpStatus::InternalServerError => 500,
            HttpStatus::NotImplemented => 501,
            HttpStatus::BadGateway => 502,
            HttpStatus::ServiceUnavailable => 503,
            HttpStatus::GatewayTimeout => 504,
            HttpStatus::HTTPVersionNotSupported => 505,
            HttpStatus::VariantAlsoNegotiates => 506,
            HttpStatus::InsufficientStorage => 507,
            HttpStatus::LoopDetected => 508,
            HttpStatus::NotExtended => 510,
            HttpStatus::NetworkAuthenticationRequired => 511,
        }
    }

    /// The fixed reason phrase of this status.
    pub fn to_message(&self) -> (r: &'static str)
        ensures
            r@ == spec_status_message(*self),
    {
        match self {
            HttpStatus::Continue => "Continue",
            HttpStatus::SwitchingProtocols => "Switching Protocols",
            HttpStatus::Processing => "Processing",
            HttpStatus::EarlyHints => "Early Hints",
            HttpStatus::OK => "OK",
            HttpStatus::Created => "Created",
            HttpStatus::Accepted => "Accepted",
            HttpStatus::NonAuthoritativeInformation => "Non-Authoritative Information",
            HttpStatus::NoContent => "No Content",
            HttpStatus::ResetContent => "Reset Content",
            HttpStatus::PartialContent => "Partial Content",
            HttpStatus::MultiStatus => "Multi-Status",
            HttpStatus::AlreadyReported => "Already Reported",
            HttpStatus::IMUsed => "IM Used",
            HttpStatus::MovedPermanently => "Moved Permanently",
            HttpStatus::Found => "Found",
            HttpStatus::SeeOther => "See Other",
            HttpStatus::NotModified => "Not Modified",
            HttpStatus::UseProxy => "Use Proxy",
            HttpStatus::TemporaryRedirect => "Temporary Redirect",
            HttpStatus::PermanentRedirect => "Permanent Redirect",
            HttpStatus::BadRequest => "Bad Request",
            HttpStatus::Unauthorized => "Unauthorized",
            HttpStatus::PaymentRequired => "Payment Required",
            HttpStatus::Forbidden => "Forbidden",
            HttpStatus::NotFound => "Not Found",
            HttpStatus::MethodNotAllowed => "Method Not Allowed",
            HttpStatus::NotAcceptable => "Not Acceptable",
            HttpStatus::ProxyAuthenticationRequired => "Proxy Authentication Required",
            HttpStatus::RequestTimeout => "Request Timeout",
            HttpStatus::Conflict => "Conflict",
            HttpStatus::Gone => "Gone",
            HttpStatus::LengthRequired => "Length Required",
            HttpStatus::PreconditionFailed => "Precondition Failed",
            HttpStatus::PayloadTooLarge => "Payload Too Large",
            HttpStatus::URITooLong => "URI Too Long",
            HttpStatus::UnsupportedMediaType => "Unsupported Media Type",
            HttpStatus::RangeNotSatisfiable => "Range Not Satisfiable",
            HttpStatus::ExpectationFailed => "Expectation Failed",
            HttpStatus::ImATeapot => "I'm a teapot",
            HttpStatus::MisdirectedRequest => "Misdirected Request",
            HttpStatus::UnprocessableEntity => "Unprocessable Entity",
            HttpStatus::Locked => "Locked",
            HttpStatus::FailedDependency => "Failed Dependency",
            HttpStatus::TooEarly => "Too Early",
            HttpStatus::UpgradeRequired => "Upgrade Required",
            HttpStatus::PreconditionRequired => "Precondition Required",
            HttpStatus::TooManyRequests => "Too Many Requests",
            HttpStatus::RequestHeaderFieldsTooLarge => "Request Header Fields Too Large",
            HttpStatus::UnavailableForLegalReasons => "Unavailable For Legal Reasons",
            HttpStatus::InternalServerError => "Internal Server Error",
            HttpStatus::NotImplemented => "Not Implemented",
            HttpStatus::BadGateway => "Bad Gateway",
            HttpStatus::ServiceUnavailable => "Service Unavailable",
            HttpStatus::GatewayTimeout => "Gateway Timeout",
            HttpStatus::HTTPVersionNotSupported => "HTTP Version Not Supported",
            HttpStatus::VariantAlsoNegotiates => "Variant Also Negotiates",
            HttpStatus::InsufficientStorage => "Insufficient Storage",
            HttpStatus::LoopDetected => "Loop Detected",
            HttpStatus::NotExtended => "Not Extended",
            HttpStatus::NetworkAuthenticationRequired => "Network Authentication Required",
        }
    }
}

} // verus!
