use std::io::Read;

use http_server::files::pick_file;
use http_server::serve::{
    body_wanted, check_request, early_response, empty_response, file_response, locate,
    located_response, server_error,
};
use http_server::{ContentHeaders, HttpContent, HttpStatus, Request, Response};

/// Answers a raw request against `root`; `read` stands for reading the file
/// that was located.
fn handle(root: &str, raw: &[u8], read: &dyn Fn(&str) -> Option<Vec<u8>>) -> (Response, bool) {
    let parsed = Request::parse_bytes(raw);
    if let Some(status) = check_request(&parsed) {
        return (empty_response(status), true);
    }
    let req = parsed.unwrap();
    let response = match locate(root, &req.path) {
        Some((content, status)) => file_response(
            status,
            read(&content.file_path()),
            &content.content_headers(),
            req.wants_gzip(),
        ),
        None => server_error(),
    };
    (response, body_wanted(&req))
}

fn index_bytes() -> Vec<u8> {
    (0..200u32).map(|i| b'a' + (i % 26) as u8).collect()
}

#[test]
fn scenario_index_html() {
    let parsed = Request::parse_bytes(b"GET /index.html HTTP/1.1\r\nHost: x\r\n\r\n");
    assert_eq!(check_request(&parsed), None);
    let req = parsed.unwrap();
    let r = file_response(
        HttpStatus::Success,
        Some(index_bytes()),
        &ContentHeaders::for_extension("html"),
        req.wants_gzip(),
    );
    assert!(body_wanted(&req));
    assert_eq!(r.status, HttpStatus::Success);
    assert_eq!(r.headers.get("Content-Type"), Some("text/html; charset=UTF-8".to_string()));
    assert_eq!(r.headers.get("Cache-Control"), Some("max-age=60".to_string()));
    assert_eq!(r.headers.get("Content-Length"), Some("200".to_string()));
    assert_eq!(r.payload, index_bytes());
}

#[test]
fn scenario_directory_index() {
    let parsed = Request::parse("GET / HTTP/1.1\r\n\r\n").unwrap();
    assert_eq!(parsed.path, "/");
    assert_eq!(pick_file("site/", false, false, true, true), Some("site/index.html".to_string()));
    assert_eq!(pick_file("site", false, false, true, true), Some("site/index.html".to_string()));
}

#[test]
fn scenario_missing_with_404_page() {
    let r = file_response(
        HttpStatus::NotFound,
        Some(b"not here".to_vec()),
        &ContentHeaders::for_extension("html"),
        false,
    );
    assert_eq!(r.status, HttpStatus::NotFound);
    assert_eq!(r.payload, b"not here".to_vec());
    assert_eq!(r.headers.get("Content-Type"), Some("text/html; charset=UTF-8".to_string()));
}

#[test]
fn scenario_missing_without_404_page() {
    let (r, body) = handle("src", b"GET /missing.txt HTTP/1.1\r\n\r\n", &|_| None);
    assert!(body);
    assert_eq!(r.status, HttpStatus::ServerError);
    assert_eq!(r.payload, b"500 Internal Server Error".to_vec());
    assert_eq!(r.headers.get("Content-Type"), Some("text/plain".to_string()));
    assert_eq!(r.headers.get("Content-Encoding"), None);
    assert_eq!(r.headers.get("Content-Length"), Some("25".to_string()));
}

#[test]
fn scenario_unreadable_file() {
    let r = file_response(HttpStatus::Success, None, &ContentHeaders::for_extension("html"), true);
    assert_eq!(r.status, HttpStatus::ServerError);
    assert_eq!(r.payload, b"500 Internal Server Error".to_vec());
}

#[test]
fn scenario_post_not_allowed() {
    let (r, _) = handle("src", b"POST /x HTTP/1.1\r\n\r\n", &|_| None);
    assert_eq!(r.status, HttpStatus::NotAllowed);
    assert!(r.payload.is_empty());
    assert_eq!(r.headers.get("Content-Length"), Some("0".to_string()));
    assert_eq!(r.headers.get("Content-Type"), None);
}

#[test]
fn scenario_old_protocol() {
    let (r, _) = handle("src", b"GET /x HTTP/1.0\r\n\r\n", &|_| None);
    assert_eq!(r.status, HttpStatus::UnsupportedVersion);
    assert!(r.payload.is_empty());
}

#[test]
fn scenario_malformed_request() {
    let (r, _) = handle("src", b"garbage", &|_| None);
    assert_eq!(r.status, HttpStatus::BadRequest);
    assert!(r.payload.is_empty());
    assert_eq!(r.headers.get("Connection"), Some("close".to_string()));
    assert_eq!(r.headers_to_string().starts_with("HTTP/1.1 400 BAD REQUEST\r\n"), true);
}

#[test]
fn scenario_existing_file_is_located() {
    let (content, status) = locate("src", "/lib.rs").unwrap();
    assert_eq!(status, HttpStatus::Success);
    assert_eq!(content.file_path(), "src/lib.rs");
    let headers = content.content_headers();
    assert_eq!(headers.content_type, "application/octet-stream");
}

#[test]
fn scenario_traversal_is_not_served() {
    assert!(HttpContent::new("src", "/lib.rs").is_some());
    assert!(HttpContent::new("src", "/../Cargo.toml").is_none());
    assert!(HttpContent::new("src", "\\../Cargo.toml").is_none());
    assert!(HttpContent::new("src", "/../../../../../../../../etc/passwd").is_none());
    let (r, _) = handle("src", b"GET /../../../etc/passwd HTTP/1.1\r\n\r\n", &|_| {
        Some(b"must not be read".to_vec())
    });
    assert_eq!(r.status, HttpStatus::ServerError);
    let (r, _) = handle("src", b"GET /../Cargo.toml HTTP/1.1\r\n\r\n", &|_| {
        Some(b"must not be read".to_vec())
    });
    assert_eq!(r.status, HttpStatus::ServerError);
}

#[test]
fn scenario_gzip_round_trip() {
    let page = b"<html><body>compress me compress me compress me</body></html>".to_vec();
    let req = Request::parse("GET /page.html HTTP/1.1\r\nAccept-Encoding: gzip, deflate\r\n\r\n").unwrap();
    let r = file_response(
        HttpStatus::Success,
        Some(page.clone()),
        &ContentHeaders::for_extension("html"),
        req.wants_gzip(),
    );
    assert_eq!(r.headers.get("Content-Encoding"), Some("gzip".to_string()));
    assert_eq!(r.headers.get("Vary"), Some("Accept-Encoding".to_string()));
    assert_eq!(r.headers.get("Content-Length"), Some(r.payload.len().to_string()));
    let mut out = Vec::new();
    flate2::read::GzDecoder::new(&r.payload[..]).read_to_end(&mut out).unwrap();
    assert_eq!(out, page);
}

#[test]
fn scenario_unknown_extension_not_compressed() {
    let req = Request::parse("GET /data.bin HTTP/1.1\r\nAccept-Encoding: gzip\r\n\r\n").unwrap();
    assert!(req.wants_gzip());
    let r = file_response(
        HttpStatus::Success,
        Some(b"raw raw raw".to_vec()),
        &ContentHeaders::for_extension("bin"),
        req.wants_gzip(),
    );
    assert_eq!(r.headers.get("Content-Type"), Some("application/octet-stream".to_string()));
    assert_eq!(r.headers.get("Cache-Control"), Some("max-age=60".to_string()));
    assert_eq!(r.headers.get("Content-Encoding"), None);
    assert_eq!(r.payload, b"raw raw raw".to_vec());
}

#[test]
fn scenario_head_matches_get() {
    let get = Request::parse("GET /index.html HTTP/1.1\r\n\r\n").unwrap();
    let head = Request::parse("HEAD /index.html HTTP/1.1\r\n\r\n").unwrap();
    assert_eq!(check_request(&Some(Request::parse("HEAD / HTTP/1.1\r\n\r\n").unwrap())), None);
    assert!(body_wanted(&get));
    assert!(!body_wanted(&head));
    let policy = ContentHeaders::for_extension("html");
    let g = file_response(HttpStatus::Success, Some(index_bytes()), &policy, get.wants_gzip());
    let h = file_response(HttpStatus::Success, Some(index_bytes()), &policy, head.wants_gzip());
    assert_eq!(h.headers.get("Content-Length"), g.headers.get("Content-Length"));
    let wire = h.to_bytes(body_wanted(&head));
    assert_eq!(wire, h.headers_to_string().into_bytes());
    assert_eq!(g.to_bytes(true).len(), g.to_bytes(false).len() + 200);
}

#[test]
fn early_outcomes() {
    let r = early_response(false, &None).unwrap();
    assert_eq!(r.status, HttpStatus::BadRequest);
    assert!(r.payload.is_empty());
    let post = Request::parse("POST /x HTTP/1.1\r\n\r\n");
    assert_eq!(early_response(true, &post).unwrap().status, HttpStatus::NotAllowed);
    let old = Request::parse("GET /x HTTP/1.0\r\n\r\n");
    assert_eq!(early_response(true, &old).unwrap().status, HttpStatus::UnsupportedVersion);
    assert_eq!(early_response(true, &None).unwrap().status, HttpStatus::BadRequest);
    let get = Request::parse("GET /x HTTP/1.1\r\n\r\n");
    assert!(early_response(true, &get).is_none());
}

#[test]
fn located_outcomes() {
    let r = located_response(None, None, true);
    assert_eq!(r.status, HttpStatus::ServerError);
    assert_eq!(r.headers.len(), 6);
    let found = Some((HttpStatus::NotFound, ContentHeaders::for_extension("html")));
    let r = located_response(found, Some(b"nf".to_vec()), false);
    assert_eq!(r.status, HttpStatus::NotFound);
    assert_eq!(r.payload, b"nf".to_vec());
    assert_eq!(r.headers.len(), 6);
    let found = Some((HttpStatus::Success, ContentHeaders::for_extension("css")));
    let r = located_response(found, None, false);
    assert_eq!(r.status, HttpStatus::ServerError);
}

#[test]
fn gzip_response_has_exactly_eight_headers() {
    let page = b"body { color: red; } body { color: red; }".to_vec();
    let r = file_response(HttpStatus::Success, Some(page), &ContentHeaders::for_extension("css"), true);
    assert_eq!(r.headers.get("Content-Encoding"), Some("gzip".to_string()));
    assert_eq!(r.headers.len(), 8);
}
