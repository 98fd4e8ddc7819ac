use nano_get::errors::{ErrorKind, NanoGetError};
use nano_get::http::{execute, send_request, serialize_request};
use nano_get::stream::{HttpStream, MemoryStream};
use nano_get::Request;

fn header_value(pairs: &Vec<(String, String)>, key: &str) -> Option<String> {
    for (k, v) in pairs {
        if k == key {
            return Some(v.clone());
        }
    }
    None
}

#[test]
fn test_default_headers() {
    let request = Request::default_get_request("http://example.com/").unwrap();
    let hs = request.get_request_headers();
    assert_eq!(hs.len(), 4);
    assert_eq!(header_value(&hs, "user-agent"), Some("mini-get/0.1.0".to_string()));
    assert_eq!(header_value(&hs, "accept"), Some("*/*".to_string()));
    assert_eq!(header_value(&hs, "host"), Some("example.com".to_string()));
    assert_eq!(header_value(&hs, "connection"), Some("close".to_string()));
}

#[test]
fn test_add_header_overrides_default() {
    let mut request = Request::default_get_request("http://example.com/").unwrap();
    request.add_header("accept", "text/plain");
    let hs = request.get_request_headers();
    assert_eq!(hs.len(), 4);
    assert_eq!(header_value(&hs, "accept"), Some("text/plain".to_string()));
}

#[test]
fn test_add_header_new_key_appends() {
    let mut request = Request::default_get_request("http://example.com/").unwrap();
    request.add_header("x-test", "value testing");
    let hs = request.get_request_headers();
    assert_eq!(hs.len(), 5);
    assert_eq!(header_value(&hs, "x-test"), Some("value testing".to_string()));
}

#[test]
fn test_new_with_custom_headers_and_body() {
    let request_headers = vec![("header1", "value1"), ("header2", "value2")];
    let request = Request::new(
        "http://example.com",
        Some(request_headers),
        Some("Hello World!!".to_string()),
    )
    .unwrap();
    let hs = request.get_request_headers();
    assert_eq!(hs.len(), 6);
    assert_eq!(header_value(&hs, "header1"), Some("value1".to_string()));
    assert_eq!(header_value(&hs, "header2"), Some("value2".to_string()));
    assert_eq!(request.body, Some("Hello World!!".to_string()));
}

#[test]
fn test_custom_header_overrides_default_on_build() {
    let request =
        Request::new("http://example.com", Some(vec![("accept", "text/html")]), None).unwrap();
    let hs = request.get_request_headers();
    assert_eq!(hs.len(), 4);
    assert_eq!(header_value(&hs, "accept"), Some("text/html".to_string()));
}

#[test]
fn test_request_type_and_https_check() {
    let plain = Request::default_get_request("http://example.com/").unwrap();
    let secure = Request::default_get_request("https://example.com/").unwrap();
    assert_eq!(plain.get_request_type(), "GET");
    assert!(!plain.is_https());
    assert!(secure.is_https());
}

#[test]
fn test_serialize_request_exact() {
    let request = Request::default_get_request("http://example.com").unwrap();
    let expected = "GET / HTTP/1.1\r\n\
                    user-agent: mini-get/0.1.0\r\n\
                    accept: */*\r\n\
                    host: example.com\r\n\
                    connection: close\r\n\
                    \r\n";
    assert_eq!(serialize_request(&request), expected);
}

#[test]
fn test_serialize_request_with_body() {
    let mut request = Request::default_get_request("http://example.com/post").unwrap();
    request.body = Some("payload".to_string());
    let s = serialize_request(&request);
    assert!(s.starts_with("GET /post HTTP/1.1\r\n"));
    assert!(s.ends_with("\r\n\r\npayload"));
}

#[test]
fn test_send_request_writes_serialized_text() {
    let request = Request::default_get_request("http://example.com/foo").unwrap();
    let mut stream = MemoryStream::new(String::new());
    send_request(&mut stream, &request).unwrap();
    assert_eq!(stream.get_written(), serialize_request(&request));
}

#[test]
fn test_execute_round_trip() {
    let request = Request::default_get_request("http://example.com/foo").unwrap();
    let mut stream = MemoryStream::new("HTTP/1.1 200 OK\r\nx: 1\r\n\r\nbody".to_string());
    let response = execute(&mut stream, &request).unwrap();
    assert_eq!(stream.get_written(), serialize_request(&request));
    assert_eq!(response.get_status_code(), Some(200));
    let hs = response.get_response_headers().unwrap();
    assert!(hs.contains(&("x".to_string(), "1".to_string())));
    assert_eq!(response.body, "body");
}

#[test]
fn test_execute_on_failing_stream_is_network_error() {
    let request = Request::default_get_request("http://example.com/").unwrap();
    let mut stream = MemoryStream::new_failing();
    let err = match execute(&mut stream, &request) {
        Err(e) => e,
        Ok(_) => panic!("expected an error"),
    };
    assert_eq!(err.kind(), ErrorKind::NetworkError);
}

#[test]
fn test_error_kinds() {
    assert_eq!(NanoGetError::new(ErrorKind::ParseError).kind(), ErrorKind::ParseError);
    assert_eq!(NanoGetError::new(ErrorKind::HttpsSslError).kind(), ErrorKind::HttpsSslError);
    assert_eq!(NanoGetError::new(ErrorKind::HttpMethodError).kind(), ErrorKind::HttpMethodError);
    assert_eq!(NanoGetError::new(ErrorKind::Default).kind(), ErrorKind::Default);
}

#[test]
fn test_read_does_not_disturb_written() {
    let mut stream = MemoryStream::new("HTTP/1.1 204 No Content\r\n\r\n".to_string());
    stream.write_all_str("hello").unwrap();
    let text = stream.read_to_end_string().unwrap();
    assert_eq!(text, "HTTP/1.1 204 No Content\r\n\r\n");
    assert_eq!(stream.get_written(), "hello");
}
