use nano_get::response::new_response_from_complete;
use nano_get::StatusCode;

fn headers_of(r: &nano_get::Response) -> Vec<(String, String)> {
    r.get_response_headers().expect("headers expected")
}

fn header_value(r: &nano_get::Response, key: &str) -> Option<String> {
    for (k, v) in headers_of(r) {
        if k == key {
            return Some(v);
        }
    }
    None
}

#[test]
fn test_parse_simple_response() {
    let r = new_response_from_complete("HTTP/1.1 200 OK\r\nx: 1\r\n\r\nbody".to_string());
    assert_eq!(r.get_status_code(), Some(200));
    assert_eq!(r.status.1, Some("OK".to_string()));
    assert_eq!(header_value(&r, "x"), Some("1".to_string()));
    assert_eq!(r.body, "body");
}

#[test]
fn test_body_with_embedded_separator() {
    let r = new_response_from_complete("HTTP/1.1 200 OK\r\n\r\nA\r\n\r\nB".to_string());
    assert_eq!(r.get_status_code(), Some(200));
    assert_eq!(r.body, "A\r\n\r\nB");
}

#[test]
fn test_parse_is_idempotent() {
    let raw = "HTTP/1.1 404 Not Found\r\na: 1\r\nb:  2 \r\n\r\nmissing";
    let r1 = new_response_from_complete(raw.to_string());
    let r2 = new_response_from_complete(raw.to_string());
    assert_eq!(r1.get_status_code(), r2.get_status_code());
    assert_eq!(r1.status.1, r2.status.1);
    assert_eq!(r1.body, r2.body);
    assert_eq!(headers_of(&r1), headers_of(&r2));
}

#[test]
fn test_reason_takes_single_token() {
    let r = new_response_from_complete("HTTP/1.1 404 Not Found\r\n\r\n".to_string());
    assert_eq!(r.status.1, Some("Not".to_string()));
}

#[test]
fn test_header_value_is_trimmed_key_is_not() {
    let r = new_response_from_complete(
        "HTTP/1.1 200 OK\r\n key :  spaced value \r\n\r\n".to_string(),
    );
    assert_eq!(header_value(&r, " key "), Some("spaced value".to_string()));
}

#[test]
fn test_header_line_without_colon_skipped() {
    let r = new_response_from_complete(
        "HTTP/1.1 200 OK\r\nnot a header\r\nx: 1\r\n\r\n".to_string(),
    );
    let hs = headers_of(&r);
    assert_eq!(hs.len(), 1);
    assert_eq!(hs[0], ("x".to_string(), "1".to_string()));
}

#[test]
fn test_header_split_on_first_colon() {
    let r = new_response_from_complete("HTTP/1.1 200 OK\r\na: b:c\r\n\r\n".to_string());
    assert_eq!(header_value(&r, "a"), Some("b:c".to_string()));
}

#[test]
fn test_duplicate_header_last_wins() {
    let r = new_response_from_complete("HTTP/1.1 200 OK\r\nx: 1\r\nx: 2\r\n\r\n".to_string());
    let hs = headers_of(&r);
    assert_eq!(hs.len(), 1);
    assert_eq!(hs[0], ("x".to_string(), "2".to_string()));
}

#[test]
fn test_no_header_lines_gives_none() {
    let r = new_response_from_complete("HTTP/1.1 200 OK\r\n\r\nbody".to_string());
    assert!(r.get_response_headers().is_none());
}

#[test]
fn test_missing_separator_keeps_whole_text_as_body() {
    let r = new_response_from_complete("no separators here".to_string());
    assert_eq!(r.body, "no separators here");
    assert_eq!(r.get_status_code(), None);
    assert_eq!(r.status.1, Some("here".to_string()));
}

#[test]
fn test_empty_response_text() {
    let r = new_response_from_complete(String::new());
    assert_eq!(r.get_status_code(), None);
    assert_eq!(r.status.1, None);
    assert!(r.get_response_headers().is_none());
    assert_eq!(r.body, "");
}

#[test]
fn test_status_line_without_code_token() {
    let r = new_response_from_complete("HTTP/1.1\r\n\r\n".to_string());
    assert_eq!(r.get_status_code(), None);
    assert!(matches!(r.status.0, StatusCode::Failure));
}

#[test]
fn test_classification_two_digit_token() {
    assert!(matches!(StatusCode::from_code("99"), StatusCode::Failure));
}

#[test]
fn test_classification_boundaries() {
    assert!(matches!(StatusCode::from_code("100"), StatusCode::Informational(100)));
    assert!(matches!(StatusCode::from_code("199"), StatusCode::Informational(199)));
    assert!(matches!(StatusCode::from_code("200"), StatusCode::Success(200)));
    assert!(matches!(StatusCode::from_code("299"), StatusCode::Success(299)));
    assert!(matches!(StatusCode::from_code("300"), StatusCode::Redirection(300)));
    assert!(matches!(StatusCode::from_code("404"), StatusCode::ClientError(404)));
    assert!(matches!(StatusCode::from_code("500"), StatusCode::ServerError(500)));
    assert!(matches!(StatusCode::from_code("599"), StatusCode::ServerError(599)));
    assert!(matches!(StatusCode::from_code("600"), StatusCode::Failure));
    assert!(matches!(StatusCode::from_code("099"), StatusCode::Failure));
}

#[test]
fn test_classification_non_numeric_token_is_failure() {
    assert!(matches!(StatusCode::from_code("2a0"), StatusCode::Failure));
    assert!(matches!(StatusCode::from_code("abc"), StatusCode::Failure));
}

#[test]
fn test_classification_trims_token() {
    assert!(matches!(StatusCode::from_code(" 200 "), StatusCode::Success(200)));
}

#[test]
fn test_get_code() {
    assert_eq!(StatusCode::Success(204).get_code(), Some(204));
    assert_eq!(StatusCode::Failure.get_code(), None);
    assert_eq!(StatusCode::Ignore.get_code(), None);
}
