use std::io::Read;

use http_server::{ContentHeaders, HttpStatus, Response};

fn content(ct: &str, age: u32, compress: bool) -> ContentHeaders {
    ContentHeaders { content_type: ct.to_string(), cache_age: age, compress }
}

#[test]
fn new_response_is_empty() {
    let r = Response::new(HttpStatus::NotFound, vec![1, 2, 3]);
    assert_eq!(r.protocol, "HTTP/1.1");
    assert_eq!(r.headers.len(), 0);
    assert_eq!(r.payload, vec![1, 2, 3]);
    assert_eq!(r.status_to_string(), "404 NOT FOUND");
}

#[test]
fn status_lines() {
    let cases = [
        (HttpStatus::Success, "200 OK"),
        (HttpStatus::NotFound, "404 NOT FOUND"),
        (HttpStatus::BadRequest, "400 BAD REQUEST"),
        (HttpStatus::NotAllowed, "405 METHOD NOT ALLOWED"),
        (HttpStatus::ServerError, "500 INTERNAL SERVER ERROR"),
        (HttpStatus::UnsupportedVersion, "505 HTTP VERSION NOT SUPPORTED"),
    ];
    for (s, text) in cases {
        assert_eq!(Response::new(s, Vec::new()).status_to_string(), text);
    }
}

#[test]
fn default_headers() {
    let mut r = Response::new(HttpStatus::Success, vec![0u8; 200]);
    r.set_default_headers();
    assert_eq!(r.headers.get("Connection"), Some("close".to_string()));
    assert_eq!(r.headers.get("Content-Length"), Some("200".to_string()));
    assert_eq!(r.headers.get("Permissions-Policy"), Some("interest-cohort=()".to_string()));
    let date = r.headers.get("Date").unwrap();
    assert!(date.ends_with(" GMT"));
    assert_eq!(r.headers.len(), 4);
}

#[test]
fn content_headers_set() {
    let mut r = Response::new(HttpStatus::Success, Vec::new());
    r.set_content_headers(&content("text/css; charset=UTF-8", 259200, true));
    assert_eq!(r.headers.get("Content-Type"), Some("text/css; charset=UTF-8".to_string()));
    assert_eq!(r.headers.get("Cache-Control"), Some("max-age=259200".to_string()));
}

#[test]
fn head_text_layout() {
    let mut r = Response::new(HttpStatus::BadRequest, Vec::new());
    r.headers.insert("A", "1");
    r.headers.insert("B", "2");
    r.headers.insert("A", "3");
    assert_eq!(r.headers_to_string(), "HTTP/1.1 400 BAD REQUEST\r\nA: 3\r\nB: 2\r\n\r\n");
}

#[test]
fn compress_round_trip() {
    let data: Vec<u8> = b"<html>hello hello hello hello</html>".to_vec();
    let mut r = Response::new(HttpStatus::Success, data.clone());
    r.set_default_headers();
    r.compress_gzip().unwrap();
    assert_ne!(r.payload, data);
    assert_eq!(r.headers.get("Content-Encoding"), Some("gzip".to_string()));
    assert_eq!(r.headers.get("Vary"), Some("Accept-Encoding".to_string()));
    assert_eq!(r.headers.get("Content-Length"), Some(r.payload.len().to_string()));
    let mut out = Vec::new();
    flate2::read::GzDecoder::new(&r.payload[..]).read_to_end(&mut out).unwrap();
    assert_eq!(out, data);
}

#[test]
fn head_bytes_leave_out_payload() {
    let mut r = Response::new(HttpStatus::Success, b"body".to_vec());
    r.set_default_headers();
    let get = r.to_bytes(true);
    let head = r.to_bytes(false);
    assert_eq!(head, r.headers_to_string().into_bytes());
    assert_eq!(&get[..head.len()], &head[..]);
    assert_eq!(&get[head.len()..], b"body");
}

#[test]
fn default_headers_date_from_time_stamp() {
    let mut r = Response::new(HttpStatus::Success, Vec::new());
    r.set_default_headers_at(0);
    assert_eq!(r.headers.get("Date"), Some("Thu, 01 Jan 1970 00:00:00 GMT".to_string()));
    r.set_default_headers_at(1431648000);
    assert_eq!(r.headers.get("Date"), Some("Fri, 15 May 2015 00:00:00 GMT".to_string()));
    assert_eq!(r.headers.get("Content-Length"), Some("0".to_string()));
    assert_eq!(r.headers.len(), 4);
}
