use nano_get::url::{parse_full_domain, parse_host_and_port, parse_proto};
use nano_get::{ToUrl, Url};

#[test]
fn test_proto_parse_http() {
    let url_str = "http://example.com/?a=1&b=2&c=3".to_string();
    let (a, b) = parse_proto(url_str, None);
    println!("{}, {}", a, b);
    assert_eq!(a, "http".to_string());
}

#[test]
fn test_proto_parse_https() {
    let url_str = "https://example.com/?a=1&b=2&c=3".to_string();
    let (a, b) = parse_proto(url_str, None);
    println!("{}, {}", a, b);
    assert_eq!(a, "https".to_string());
}

#[test]
fn test_proto_parse_ftp() {
    let url_str = "ftp://example.com/?a=1&b=2&c=3".to_string();
    let (a, b) = parse_proto(url_str, None);
    println!("{}, {}", a, b);
    assert_eq!(a, "ftp".to_string());
}

#[test]
fn test_proto_parse_none() {
    let url_str = "example.com/?a=1&b=2&c=3".to_string();
    let (a, b) = parse_proto(url_str, None);
    println!("{}, {}", a, b);
    assert_eq!(a, "http".to_string());
}

#[test]
fn test_proto_remainder_kept() {
    let (proto, rest) = parse_proto("example.com/a/b".to_string(), None);
    assert_eq!(proto, "http");
    assert_eq!(rest, "example.com/a/b");
}

#[test]
fn test_proto_first_separator_wins() {
    let (proto, rest) = parse_proto("a://b://c".to_string(), None);
    assert_eq!(proto, "a");
    assert_eq!(rest, "b://c");
}

#[test]
fn test_proto_explicit_default() {
    let (proto, rest) = parse_proto("example.com".to_string(), Some("gopher".to_string()));
    assert_eq!(proto, "gopher");
    assert_eq!(rest, "example.com");
}

#[test]
fn test_full_domain_split() {
    let (dom, path) = parse_full_domain("example.com/x/y".to_string(), None);
    assert_eq!(dom, "example.com");
    assert_eq!(path, "/x/y");
}

#[test]
fn test_full_domain_default_path() {
    let (dom, path) = parse_full_domain("example.com".to_string(), None);
    assert_eq!(dom, "example.com");
    assert_eq!(path, "/");
}

#[test]
fn test_host_port_split() {
    let (host, port) = parse_host_and_port("example.com:8080".to_string(), None);
    assert_eq!(host, "example.com");
    assert_eq!(port, "8080");
}

#[test]
fn test_host_port_explicit_default() {
    let (host, port) = parse_host_and_port("example.com".to_string(), Some("443".to_string()));
    assert_eq!(host, "example.com");
    assert_eq!(port, "443");
}

#[test]
fn test_host_port_no_default() {
    let (host, port) = parse_host_and_port("example.com".to_string(), None);
    assert_eq!(host, "example.com");
    assert_eq!(port, "");
}

#[test]
fn test_default_port_http() {
    let url = Url::new("http://h/");
    assert_eq!(url.port, "80");
}

#[test]
fn test_default_port_https() {
    let url = Url::new("https://h/");
    assert_eq!(url.port, "443");
}

#[test]
fn test_default_port_other_scheme_unset() {
    let url = Url::new("ftp://h/");
    assert_eq!(url.port, "");
}

#[test]
fn test_path_defaulting() {
    let url = Url::new("http://h");
    assert_eq!(url.path, "/");
}

#[test]
fn test_path_and_port_kept() {
    let url = Url::new("http://h:81/x/y");
    assert_eq!(url.path, "/x/y");
    assert_eq!(url.port, "81");
    assert_eq!(url.host, "h");
    assert_eq!(url.protocol, "http");
}

#[test]
fn test_schemeless_url_defaults_to_http() {
    let url = Url::new("example.com/a");
    assert_eq!(url.protocol, "http");
    assert_eq!(url.host, "example.com");
    assert_eq!(url.path, "/a");
    assert_eq!(url.port, "80");
}

#[test]
fn test_explicit_port_overrides_default() {
    let url = Url::new("https://example.com:8443/secure");
    assert_eq!(url.protocol, "https");
    assert_eq!(url.host, "example.com");
    assert_eq!(url.port, "8443");
    assert_eq!(url.path, "/secure");
}

#[test]
fn test_get_full_url() {
    let url = Url::new("http://example.com");
    assert_eq!(url.get_full_url(), "http://example.com:80/");
}

#[test]
fn test_get_host_with_port() {
    let url = Url::new("http://example.com/a");
    assert_eq!(url.get_host_with_port(), "example.com:80");
}

#[test]
fn test_to_url_for_string_and_str() {
    let from_str = "http://example.com/x".to_url().unwrap();
    let from_string = String::from("http://example.com/x").to_url().unwrap();
    assert_eq!(from_str.host, from_string.host);
    assert_eq!(from_str.path, "/x");
}

#[test]
fn test_to_url_for_url_copies_parts() {
    let url = Url::new("https://example.com:9000/y");
    let copy = (&url).to_url().unwrap();
    assert_eq!(copy.protocol, url.protocol);
    assert_eq!(copy.host, url.host);
    assert_eq!(copy.port, url.port);
    assert_eq!(copy.path, url.path);
}

#[test]
fn test_empty_string_best_effort() {
    let url = Url::new("");
    assert_eq!(url.protocol, "http");
    assert_eq!(url.host, "");
    assert_eq!(url.port, "80");
    assert_eq!(url.path, "/");
}
