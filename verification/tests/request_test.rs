use katana::http::{HttpMethod, HttpVersion};
use katana::request::Request;

/// Percent escapes decode to their bytes.
#[test]
fn test_decode_url_percent_escape() {
    assert_eq!(Request::decode_url("%20"), " ");
}

/// A plus decodes to a space.
#[test]
fn test_decode_url_plus() {
    assert_eq!(Request::decode_url("a+b"), "a b");
}

/// An invalid escape is preserved literally.
#[test]
fn test_decode_url_invalid_escape() {
    assert_eq!(Request::decode_url("%zz"), "%zz");
}

/// Mixed decodes, truncated escapes, and pass-through.
#[test]
fn test_decode_url_mixed() {
    assert_eq!(Request::decode_url("/a%20b/c+d"), "/a b/c d");
    assert_eq!(Request::decode_url("%41%42%43"), "ABC");
    assert_eq!(Request::decode_url("%4"), "%4");
    assert_eq!(Request::decode_url("%"), "%");
    assert_eq!(Request::decode_url("plain"), "plain");
    assert_eq!(Request::decode_url("%2Fetc"), "/etc");
}

/// A syntactically valid request line parses into exactly the method,
/// decoded path and version supplied.
#[test]
fn test_from_lines_request_line_round_trip() {
    let req = Request::from_lines("GET /hello%20world HTTP/1.1", &Vec::new())
        .expect("valid request line");
    assert_eq!(req.method, HttpMethod::GET);
    assert_eq!(req.path, "/hello world");
    assert_eq!(req.version, HttpVersion::Http11);
    assert_eq!(req.queries.len(), 0);
    assert_eq!(req.body, "");
}

/// The decoded target splits on the first `?` into path and query pairs;
/// pairs without `=` are dropped.
#[test]
fn test_from_lines_query_split() {
    let req = Request::from_lines("GET /search?q=rust&lang=en&bare HTTP/1.1", &Vec::new())
        .expect("valid request line");
    assert_eq!(req.path, "/search");
    assert_eq!(
        req.queries,
        vec![
            ("q".to_string(), "rust".to_string()),
            ("lang".to_string(), "en".to_string())
        ]
    );
}

/// Headers keep arrival order; `Host` sets the domain; `Cookie` fills the
/// cookie pairs; lines without the separator are skipped.
#[test]
fn test_from_lines_headers_domain_cookies() {
    let header_lines = vec![
        "Host: example.com".to_string(),
        "Accept: */*".to_string(),
        "garbage-line".to_string(),
        "Cookie: x=1; y=2".to_string(),
    ];
    let req =
        Request::from_lines("GET / HTTP/1.1", &header_lines).expect("valid request line");
    assert_eq!(req.domain, "example.com");
    assert_eq!(req.headers.len(), 3);
    assert_eq!(req.headers[0], ("Host".to_string(), "example.com".to_string()));
    assert_eq!(req.headers[1], ("Accept".to_string(), "*/*".to_string()));
    assert_eq!(req.headers[2], ("Cookie".to_string(), "x=1; y=2".to_string()));
    assert_eq!(
        req.cookies,
        vec![
            ("x".to_string(), "1".to_string()),
            ("y".to_string(), "2".to_string())
        ]
    );
}

/// Too few tokens, an unknown method, or an unknown version refuse the
/// whole request.
#[test]
fn test_from_lines_refusals() {
    assert!(Request::from_lines("", &Vec::new()).is_none());
    assert!(Request::from_lines("GET /x", &Vec::new()).is_none());
    assert!(Request::from_lines("BREW /x HTTP/1.1", &Vec::new()).is_none());
    assert!(Request::from_lines("GET /x HTTP/0.9", &Vec::new()).is_none());
}

/// The body length comes from the first `Content-Length` header of a
/// served method; unserved methods never read a body.
#[test]
fn test_body_length() {
    let header_lines = vec!["Content-Length: 5".to_string()];
    let req = Request::from_lines("GET / HTTP/1.1", &header_lines).unwrap();
    assert_eq!(req.body_length(), Some(5));

    let req = Request::from_lines("POST / HTTP/1.1", &header_lines).unwrap();
    assert_eq!(req.body_length(), None);

    let req = Request::from_lines("GET / HTTP/1.1", &Vec::new()).unwrap();
    assert_eq!(req.body_length(), None);

    let bad = vec!["Content-Length: many".to_string()];
    let req = Request::from_lines("GET / HTTP/1.1", &bad).unwrap();
    assert_eq!(req.body_length(), None);
}

/// The textual echo of a request: request line, query line, headers.
#[test]
fn test_http_description() {
    let header_lines = vec!["Host: example.com".to_string()];
    let mut req =
        Request::from_lines("GET /a?k=v HTTP/1.1", &header_lines).expect("valid request line");
    req.set_body("ignored".to_string());
    let desc = req.http_description();
    assert_eq!(
        desc,
        "GET /a HTTP/1.1\r\n/a?k=v\r\nHost: example.com\r\n"
    );
    assert_eq!(req.to_string(), desc);
}
