use http_server::request::accepts_gzip;
use http_server::Request;

#[test]
fn parse_simple_get() {
    let req = Request::parse("GET /index.html HTTP/1.1\r\nHost: x\r\n\r\n").unwrap();
    assert_eq!(req.method, "GET");
    assert_eq!(req.path, "/index.html");
    assert_eq!(req.protocol, "HTTP/1.1");
    assert_eq!(req.header("Host"), Some("x".to_string()));
    assert_eq!(req.headers.len(), 1);
}

#[test]
fn parse_trims_header_parts_and_skips_lines_without_colon() {
    let req = Request::parse("GET / HTTP/1.1\r\n  User-Agent :  curl/8 \r\nnocolon\r\nA: b: c\r\n\r\n")
        .unwrap();
    assert_eq!(req.header("User-Agent"), Some("curl/8".to_string()));
    assert_eq!(req.header("A"), Some("b: c".to_string()));
    assert_eq!(req.headers.len(), 2);
}

#[test]
fn parse_header_lookup_is_case_sensitive() {
    let req = Request::parse("GET / HTTP/1.1\r\naccept-encoding: gzip\r\n\r\n").unwrap();
    assert_eq!(req.header("Accept-Encoding"), None);
    assert!(!req.wants_gzip());
}

#[test]
fn parse_later_header_replaces_earlier() {
    let req = Request::parse("GET / HTTP/1.1\r\nX: 1\r\nX: 2\r\n\r\n").unwrap();
    assert_eq!(req.header("X"), Some("2".to_string()));
    assert_eq!(req.headers.len(), 1);
}

#[test]
fn parse_fails_without_two_spaces() {
    assert!(Request::parse("GET /\r\n\r\n").is_none());
    assert!(Request::parse("").is_none());
}

#[test]
fn parse_fails_without_crlf() {
    assert!(Request::parse("GET / HTTP/1.1").is_none());
}

#[test]
fn parse_path_may_contain_spaces_after_second() {
    let req = Request::parse("GET /a b c\r\n\r\n").unwrap();
    assert_eq!(req.path, "/a");
    assert_eq!(req.protocol, "b c");
}

#[test]
fn parse_bytes_replaces_invalid_utf8() {
    let mut raw = b"GET /x HTTP/1.1\r\nX: ".to_vec();
    raw.push(0xff);
    raw.extend_from_slice(b"\r\n\r\n");
    let req = Request::parse_bytes(&raw).unwrap();
    assert_eq!(req.header("X"), Some("\u{FFFD}".to_string()));
}

#[test]
fn parse_bytes_on_zero_filled_buffer() {
    let mut buf = [0u8; 1024];
    let text = b"GET / HTTP/1.1\r\n\r\n";
    buf[..text.len()].copy_from_slice(text);
    let req = Request::parse_bytes(&buf).unwrap();
    assert_eq!(req.method, "GET");
    assert!(Request::parse_bytes(&[0u8; 1024]).is_none());
    assert!(Request::parse_bytes(&[0xffu8; 64]).is_none());
}

#[test]
fn gzip_tokens() {
    assert!(accepts_gzip("gzip"));
    assert!(accepts_gzip("deflate,  gzip;q=1.0"));
    assert!(accepts_gzip("br, gzip"));
    assert!(!accepts_gzip("deflate, br"));
    assert!(!accepts_gzip("x-gzip"));
    assert!(!accepts_gzip(""));
}

#[test]
fn wants_gzip_reads_accept_encoding() {
    let req = Request::parse("GET / HTTP/1.1\r\nAccept-Encoding: gzip, deflate\r\n\r\n").unwrap();
    assert!(req.wants_gzip());
}
