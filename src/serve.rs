use vstd::prelude::*;

use crate::files::{
    known_extension, lemma_unknown_extension, policy, resolves_to, ContentHeaders, HttpContent,
    PolicyModel,
};
use crate::headers::header_value;
use crate::request::{Request, RequestModel};
use crate::response::{
    gzip_of, has_content_headers, has_default_headers, lemma_header_names_distinct,
    not_content_name, not_default_name, HttpStatus, Response, ResponseModel,
};
use crate::response::{http_date_text, LAST_DATE_SECS};
use crate::text::{decimal, str_eq};

verus! {

/// The status with which a request is turned away before any file is looked
/// up: none parsed, a protocol other than `HTTP/1.1`, or a method other than
/// `GET` and `HEAD`. `None` means the request is served.
pub open spec fn rejection(q: Option<RequestModel>) -> Option<HttpStatus> {
    match q {
        None => Some(HttpStatus::BadRequest),
        Some(m) => if m.protocol != "HTTP/1.1"@ {
            Some(HttpStatus::UnsupportedVersion)
        } else if m.method != "GET"@ && m.method != "HEAD"@ {
            Some(HttpStatus::NotAllowed)
        } else {
            None
        },
    }
}

/// The model of a parse outcome.
pub open spec fn outcome(request: &Option<Request>) -> Option<RequestModel> {
    match request {
        Some(q) => Some(q@),
        None => None,
    }
}

/// A headers-only response: the status, no payload and the default headers.
pub open spec fn is_empty_response(r: ResponseModel, status: HttpStatus) -> bool {
    &&& r.status == status
    &&& r.protocol == "HTTP/1.1"@
    &&& r.payload.len() == 0
    &&& has_default_headers(r.headers, 0)
    &&& header_value(r.headers, "Content-Type"@) is None
    &&& header_value(r.headers, "Cache-Control"@) is None
    &&& header_value(r.headers, "Content-Encoding"@) is None
    &&& forall|n: Seq<char>| not_default_name(n) ==> #[trigger] header_value(r.headers, n) is None
}

/// The payload of the internal-error response.
pub open spec fn server_error_body() -> Seq<u8> {
    vstd::utf8::encode_utf8("500 Internal Server Error"@)
}

/// The internal-error response: plain text, never compressed.
pub open spec fn is_server_error(r: ResponseModel) -> bool {
    &&& r.status == HttpStatus::ServerError
    &&& r.protocol == "HTTP/1.1"@
    &&& r.payload == server_error_body()
    &&& has_default_headers(r.headers, r.payload.len())
    &&& has_content_headers(r.headers, ("text/plain"@, 0u32, false))
    &&& header_value(r.headers, "Content-Encoding"@) is None
    &&& forall|n: Seq<char>|
        not_default_name(n) && not_content_name(n) ==> #[trigger] header_value(r.headers, n) is None
}

/// A response that carries `bytes` of content with metadata `p`, gzip-compressed
/// or as they are.
pub open spec fn served(
    r: ResponseModel,
    status: HttpStatus,
    bytes: Seq<u8>,
    p: PolicyModel,
    compressed: bool,
) -> bool {
    &&& r.status == status
    &&& r.protocol == "HTTP/1.1"@
    &&& has_content_headers(r.headers, p)
    &&& header_value(r.headers, "Connection"@) == Some("close"@)
    &&& exists|t: i64| 0 <= t < LAST_DATE_SECS && header_value(r.headers, "Date"@) == Some(#[trigger] http_date_text(t))
    &&& header_value(r.headers, "Permissions-Policy"@) == Some("interest-cohort=()"@)
    &&& header_value(r.headers, "Content-Length"@) == Some(decimal(r.payload.len()))
    &&& if compressed {
        &&& gzip_of(bytes) == Some(r.payload)
        &&& header_value(r.headers, "Content-Encoding"@) == Some("gzip"@)
        &&& header_value(r.headers, "Vary"@) == Some("Accept-Encoding"@)
    } else {
        &&& r.payload == bytes
        &&& header_value(r.headers, "Content-Encoding"@) is None
        &&& header_value(r.headers, "Vary"@) is None
    }
    &&& forall|n: Seq<char>|
        not_default_name(n) && not_content_name(n) && n != "Content-Encoding"@ && n != "Vary"@
            ==> #[trigger] header_value(r.headers, n) is None
}

/// Whether content with metadata `p` goes out gzip-compressed: the metadata
/// allows it, the client accepts it, and the encoder gives a stream.
pub open spec fn compresses(bytes: Seq<u8>, p: PolicyModel, gzip_wanted: bool) -> bool {
    p.2 && gzip_wanted && gzip_of(bytes) is Some
}

/// Content whose extension has no entry of its own goes out as
/// `application/octet-stream` with a minute of caching and uncompressed, even
/// to a client that accepts gzip.
pub proof fn lemma_unknown_extension_served(
    r: ResponseModel,
    status: HttpStatus,
    bytes: Seq<u8>,
    ext: Seq<char>,
    gzip_wanted: bool,
)
    requires
        !known_extension(ext),
        served(r, status, bytes, policy(ext), compresses(bytes, policy(ext), gzip_wanted)),
    ensures
        served(r, status, bytes, policy(ext), false),
        r.payload == bytes,
        header_value(r.headers, "Content-Type"@) == Some("application/octet-stream"@),
        header_value(r.headers, "Cache-Control"@) == Some("max-age="@ + decimal(60)),
        header_value(r.headers, "Content-Encoding"@) is None,
{
    lemma_unknown_extension(ext);
}

/// Decides whether a parse outcome is served or turned away, and with which status.
pub fn check_request(request: &Option<Request>) -> (r: Option<HttpStatus>)
    ensures
        r == rejection(outcome(request)),
{
    match request {
        None => Some(HttpStatus::BadRequest),
        Some(q) => {
            if !str_eq(q.protocol.as_str(), "HTTP/1.1") {
                Some(HttpStatus::UnsupportedVersion)
            } else if !str_eq(q.method.as_str(), "GET") && !str_eq(q.method.as_str(), "HEAD") {
                Some(HttpStatus::NotAllowed)
            } else {
                None
            }
        },
    }
}

/// Whether the answer carries its payload: all but `HEAD` requests.
pub fn body_wanted(request: &Request) -> (r: bool)
    ensures
        r == (request.method@ != "HEAD"@),
{
    !str_eq(request.method.as_str(), "HEAD")
}

/// A response with the given status, no payload and the default headers.
pub fn empty_response(status: HttpStatus) -> (r: Response)
    ensures
        is_empty_response(r@, status),
{
    proof {
        lemma_header_names_distinct();
    }
    let mut r = Response::new(status, Vec::new());
    r.set_default_headers();
    r
}

/// The internal-error response.
pub fn server_error() -> (r: Response)
    ensures
        is_server_error(r@),
{
    proof {
        lemma_header_names_distinct();
    }
    let body = vstd::slice::slice_to_vec("500 Internal Server Error".as_bytes());
    let mut r = Response::new(HttpStatus::ServerError, body);
    r.set_default_headers();
    let plain = ContentHeaders { content_type: "text/plain".to_owned(), cache_age: 0, compress: false };
    r.set_content_headers(&plain);
    r
}

/// A response carrying a file's bytes with its metadata; gzip is applied where
/// the metadata allows it and the client accepts it, and where compression
/// fails the bytes go as they are.
pub fn content_response(
    status: HttpStatus,
    bytes: Vec<u8>,
    policy: &ContentHeaders,
    gzip_wanted: bool,
) -> (r: Response)
    ensures
        served(r@, status, bytes@, policy@, compresses(bytes@, policy@, gzip_wanted)),
{
    proof {
        lemma_header_names_distinct();
    }
    let mut r = Response::new(status, bytes);
    r.set_default_headers();
    r.set_content_headers(policy);
    if policy.compress && gzip_wanted {
        let _ = r.compress_gzip();
    }
    r
}

/// The response for a located file: its bytes if they could be read, else the
/// internal-error response.
pub fn file_response(
    status: HttpStatus,
    bytes: Option<Vec<u8>>,
    policy: &ContentHeaders,
    gzip_wanted: bool,
) -> (r: Response)
    ensures
        match bytes {
            Some(b) => served(r@, status, b@, policy@, compresses(b@, policy@, gzip_wanted)),
            None => is_server_error(r@),
        },
{
    match bytes {
        Some(b) => content_response(status, b, policy, gzip_wanted),
        None => server_error(),
    }
}

/// The file to answer a request path with: the path itself with `200 OK`, or
/// failing that the root's `404.html` with `404 NOT FOUND`.
pub fn locate(root: &str, path: &str) -> (r: Option<(HttpContent, HttpStatus)>)
    ensures
        match r {
            Some(found) => (found.1 == HttpStatus::Success && resolves_to(found.0@, root@, path@))
                || (found.1 == HttpStatus::NotFound && resolves_to(
                found.0@,
                root@,
                "404.html"@,
            )),
            None => true,
        },
{
    match HttpContent::new(root, path) {
        Some(c) => Some((c, HttpStatus::Success)),
        None => match HttpContent::new(root, "404.html") {
            Some(c) => Some((c, HttpStatus::NotFound)),
            None => None,
        },
    }
}

/// The answer that ends a connection before any file is looked up: a failed
/// read gets `400 BAD REQUEST`, a request that is turned away gets its
/// rejection status, both with no body. `None` means the request is served.
pub fn early_response(read_ok: bool, request: &Option<Request>) -> (r: Option<Response>)
    ensures
        !read_ok ==> (r matches Some(x) && is_empty_response(x@, HttpStatus::BadRequest)),
        read_ok ==> match rejection(outcome(request)) {
            Some(st) => (r matches Some(x) && is_empty_response(x@, st)),
            None => r is None,
        },
{
    if !read_ok {
        return Some(empty_response(HttpStatus::BadRequest));
    }
    match check_request(request) {
        Some(st) => Some(empty_response(st)),
        None => None,
    }
}

/// The answer for a served request once the lookup is done: the located
/// file's status and metadata with its bytes (if they could be read), or the
/// internal-error response where nothing was located.
pub fn located_response(
    found: Option<(HttpStatus, ContentHeaders)>,
    bytes: Option<Vec<u8>>,
    gzip_wanted: bool,
) -> (r: Response)
    ensures
        match found {
            Some(f) => match bytes {
                Some(b) => served(r@, f.0, b@, f.1@, compresses(b@, f.1@, gzip_wanted)),
                None => is_server_error(r@),
            },
            None => is_server_error(r@),
        },
{
    match found {
        Some((status, policy)) => file_response(status, bytes, &policy, gzip_wanted),
        None => server_error(),
    }
}

} // verus!
