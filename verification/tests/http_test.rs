use katana::http::{HttpMethod, HttpStatus, HttpVersion};

/// Every method token round-trips through the vocabulary.
#[test]
fn test_method_round_trip() {
    let methods = HttpMethod::GET.to_vec();
    assert_eq!(methods.len(), 9);
    for m in methods {
        assert_eq!(HttpMethod::from_str(m.as_str()), Some(m));
    }
}

/// Unknown or differently-cased method tokens are refused.
#[test]
fn test_method_from_str_exact_match_only() {
    assert_eq!(HttpMethod::from_str("get"), None);
    assert_eq!(HttpMethod::from_str("GETX"), None);
    assert_eq!(HttpMethod::from_str(""), None);
    assert_eq!(HttpMethod::from_str("BREW"), None);
}

/// The served and rejected method sets partition the vocabulary.
#[test]
fn test_method_immutable_mutable() {
    let immutable = HttpMethod::immutable();
    assert_eq!(
        immutable,
        vec![
            HttpMethod::GET,
            HttpMethod::HEAD,
            HttpMethod::OPTIONS,
            HttpMethod::TRACE
        ]
    );
    let mutable = HttpMethod::mutable();
    assert_eq!(mutable.len(), 5);
    for m in &immutable {
        assert!(m.is_supported());
    }
    for m in &mutable {
        assert!(!m.is_supported());
    }
}

/// The Allow line joins tokens with a comma and a space.
#[test]
fn test_comma_separated() {
    assert_eq!(
        HttpMethod::comma_separated(&HttpMethod::immutable()),
        "GET, HEAD, OPTIONS, TRACE"
    );
    assert_eq!(HttpMethod::comma_separated(&Vec::new()), "");
    assert_eq!(HttpMethod::comma_separated(&vec![HttpMethod::PUT]), "PUT");
}

/// Version tokens round-trip; unknown ones are refused.
#[test]
fn test_version_tokens() {
    assert_eq!(HttpVersion::from_str("1.0"), Some(HttpVersion::Http10));
    assert_eq!(HttpVersion::from_str("1.1"), Some(HttpVersion::Http11));
    assert_eq!(HttpVersion::from_str("2.0"), Some(HttpVersion::Http20));
    assert_eq!(HttpVersion::from_str("3.0"), Some(HttpVersion::Http30));
    assert_eq!(HttpVersion::from_str("0.9"), None);
    assert_eq!(HttpVersion::Http11.as_str(), "HTTP/1.1");
    assert_eq!(HttpVersion::Http30.as_str(), "HTTP/3.0");
}

/// Codes and reason phrases of the status catalogue.
#[test]
fn test_status_codes_and_messages() {
    assert_eq!(HttpStatus::OK.to_code(), 200);
    assert_eq!(HttpStatus::OK.to_message(), "OK");
    assert_eq!(HttpStatus::PartialContent.to_code(), 206);
    assert_eq!(HttpStatus::PartialContent.to_message(), "Partial Content");
    assert_eq!(HttpStatus::BadRequest.to_code(), 400);
    assert_eq!(HttpStatus::Forbidden.to_code(), 403);
    assert_eq!(HttpStatus::NotFound.to_code(), 404);
    assert_eq!(HttpStatus::NotFound.to_message(), "Not Found");
    assert_eq!(HttpStatus::MethodNotAllowed.to_code(), 405);
    assert_eq!(HttpStatus::RangeNotSatisfiable.to_code(), 416);
    assert_eq!(
        HttpStatus::RangeNotSatisfiable.to_message(),
        "Range Not Satisfiable"
    );
    assert_eq!(HttpStatus::ImATeapot.to_code(), 418);
    assert_eq!(HttpStatus::ImATeapot.to_message(), "I'm a teapot");
    assert_eq!(HttpStatus::InternalServerError.to_code(), 500);
    assert_eq!(
        HttpStatus::NetworkAuthenticationRequired.to_code(),
        511
    );
    assert_eq!(HttpStatus::Continue.to_code(), 100);
}
