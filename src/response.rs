use vstd::prelude::*;

use crate::files::{ContentHeaders, PolicyModel};
use crate::headers::{header_text, header_value, HeaderModel, Headers};
use crate::text::{chars_of, concat_chars, decimal, decimal_chars, string_of};

verus! {

/// The statuses that the server answers with.
#[derive(Clone, Copy, Debug, PartialEq, Eq, Structural)]
pub enum HttpStatus {
    Success,
    NotFound,
    BadRequest,
    NotAllowed,
    ServerError,
    UnsupportedVersion,
}

/// The status line's code and reason for each status.
pub open spec fn status_text(s: HttpStatus) -> Seq<char> {
    match s {
        HttpStatus::Success => "200 OK"@,
        HttpStatus::NotFound => "404 NOT FOUND"@,
        HttpStatus::BadRequest => "400 BAD REQUEST"@,
        HttpStatus::NotAllowed => "405 METHOD NOT ALLOWED"@,
        HttpStatus::ServerError => "500 INTERNAL SERVER ERROR"@,
        HttpStatus::UnsupportedVersion => "505 HTTP VERSION NOT SUPPORTED"@,
    }
}

/// A response as the contracts see it.
pub struct ResponseModel {
    pub status: HttpStatus,
    pub protocol: Seq<char>,
    pub headers: Seq<HeaderModel>,
    pub payload: Seq<u8>,
}

/// The status line, the header lines and the blank line that ends them.
pub open spec fn head_text(r: ResponseModel) -> Seq<char> {
    r.protocol + " "@ + status_text(r.status) + "\r\n"@ + header_text(r.headers) + "\r\n"@
}

/// The bytes that go on the wire: the head, then the payload where a body is
/// wanted.
pub open spec fn wire(r: ResponseModel, with_body: bool) -> Seq<u8> {
    vstd::utf8::encode_utf8(head_text(r)) + if with_body {
        r.payload
    } else {
        Seq::<u8>::empty()
    }
}

/// Leaving the body out leaves the head as it is, `Content-Length` included:
/// only the payload bytes are missing at the end.
pub proof fn lemma_head_matches_get(r: ResponseModel)
    ensures
        wire(r, true) == wire(r, false) + r.payload,
        wire(r, false) == vstd::utf8::encode_utf8(head_text(r)),
{
    assert(wire(r, false) =~= vstd::utf8::encode_utf8(head_text(r)));
}

/// The headers that every response carries: `Connection: close`, the length of
/// `len` payload bytes, a date and the permissions policy.
pub open spec fn has_default_headers(h: Seq<HeaderModel>, len: nat) -> bool {
    &&& header_value(h, "Connection"@) == Some("close"@)
    &&& header_value(h, "Content-Length"@) == Some(decimal(len))
    &&& exists|t: i64| 0 <= t < LAST_DATE_SECS && header_value(h, "Date"@) == Some(#[trigger] http_date_text(t))
    &&& header_value(h, "Permissions-Policy"@) == Some("interest-cohort=()"@)
}

/// The headers that describe a content of the given metadata.
pub open spec fn has_content_headers(h: Seq<HeaderModel>, p: PolicyModel) -> bool {
    &&& header_value(h, "Content-Type"@) == Some(p.0)
    &&& header_value(h, "Cache-Control"@) == Some("max-age="@ + decimal(p.1 as nat))
}

/// The header names that responses set are pairwise distinct.
pub proof fn lemma_header_names_distinct()
    ensures
        not_default_name("Content-Type"@),
        not_default_name("Cache-Control"@),
        not_default_name("Content-Encoding"@),
        not_default_name("Vary"@),
        not_content_name("Connection"@),
        not_content_name("Content-Length"@),
        not_content_name("Date"@),
        not_content_name("Permissions-Policy"@),
        not_content_name("Content-Encoding"@),
        not_content_name("Vary"@),
        not_encoding_name("Connection"@),
        not_encoding_name("Date"@),
        not_encoding_name("Permissions-Policy"@),
        not_encoding_name("Content-Type"@),
        not_encoding_name("Cache-Control"@),
{
    reveal_strlit("Connection");
    reveal_strlit("Content-Length");
    reveal_strlit("Date");
    reveal_strlit("Permissions-Policy");
    reveal_strlit("Content-Type");
    reveal_strlit("Cache-Control");
    reveal_strlit("Content-Encoding");
    reveal_strlit("Vary");
    assert("Connection"@.len() == 10 && "Content-Length"@.len() == 14 && "Date"@.len() == 4
        && "Permissions-Policy"@.len() == 18 && "Content-Type"@.len() == 12
        && "Cache-Control"@.len() == 13 && "Content-Encoding"@.len() == 16 && "Vary"@.len() == 4);
    assert("Date"@[0] != "Vary"@[0]);
}

/// Names that `set_default_headers` leaves alone.
pub open spec fn not_default_name(n: Seq<char>) -> bool {
    n != "Connection"@ && n != "Content-Length"@ && n != "Date"@ && n != "Permissions-Policy"@
}

/// Names that `set_content_headers` leaves alone.
pub open spec fn not_content_name(n: Seq<char>) -> bool {
    n != "Content-Type"@ && n != "Cache-Control"@
}

/// Names that `compress_gzip` leaves alone.
pub open spec fn not_encoding_name(n: Seq<char>) -> bool {
    n != "Content-Encoding"@ && n != "Vary"@ && n != "Content-Length"@
}

/// Relies on flate2's `GzEncoder` at the default level writing into a `Vec`:
/// the gzip stream of the bytes, or `None` where the encoder reports an error.
/// The stream's header is fixed (no time stamp), so the outcome depends on the
/// bytes alone.
pub uninterp spec fn gzip_of(b: Seq<u8>) -> Option<Seq<u8>>;

/// Relies on flate2's `GzEncoder` (default level) writing into a `Vec`.
#[verifier::external_body]
fn gzip(b: &Vec<u8>) -> (r: Option<Vec<u8>>)
    ensures
        match r {
            Some(z) => gzip_of(b@) == Some(z@),
            None => gzip_of(b@) is None,
        },
{
    let mut e = flate2::write::GzEncoder::new(Vec::new(), flate2::Compression::default());
    match std::io::Write::write_all(&mut e, b) {
        Ok(()) => e.finish().ok(),
        Err(_) => None,
    }
}

/// Seconds from the Unix epoch to the first instant of the year 10000: every
/// earlier non-negative time stamp is a date that chrono can represent.
pub const LAST_DATE_SECS: i64 = 253402300800;

/// Relies on chrono's `DateTime::from_timestamp` and `format`: the UTC time
/// `secs` seconds after the Unix epoch, written `"%a, %d %b %Y %H:%M:%S GMT"`.
pub uninterp spec fn http_date_text(secs: i64) -> Seq<char>;

/// Relies on chrono's `DateTime::from_timestamp` (`None` only out of its range)
/// and `format`.
#[verifier::external_body]
fn http_date_of(secs: i64) -> (r: Option<String>)
    ensures
        match r {
            Some(d) => d@ == http_date_text(secs),
            None => true,
        },
        0 <= secs < LAST_DATE_SECS ==> r is Some,
{
    chrono::DateTime::from_timestamp(secs, 0).map(
        |d| d.format("%a, %d %b %Y %H:%M:%S GMT").to_string(),
    )
}

/// Relies on `SystemTime::now` and `duration_since`: whole seconds since the
/// Unix epoch, or `None` where the clock reads earlier.
#[verifier::external_body]
fn unix_seconds_now() -> (r: Option<u64>) {
    match std::time::SystemTime::now().duration_since(std::time::UNIX_EPOCH) {
        Ok(d) => Some(d.as_secs()),
        Err(_) => None,
    }
}

/// The compression stream could not be finished; the response is unchanged.
#[derive(Clone, Copy, Debug, PartialEq, Eq, Structural)]
pub enum CompressError {
    Failed,
}

/// An HTTP response being built.
pub struct Response {
    pub status: HttpStatus,
    pub protocol: String,
    pub headers: Headers,
    pub payload: Vec<u8>,
}

impl View for Response {
    type V = ResponseModel;

    open spec fn view(&self) -> ResponseModel {
        ResponseModel {
            status: self.status,
            protocol: self.protocol@,
            headers: self.headers@,
            payload: self.payload@,
        }
    }
}

impl Response {
    /// An HTTP/1.1 response with the given status and payload and no headers.
    pub fn new(status: HttpStatus, payload: Vec<u8>) -> (r: Response)
        ensures
            r@ == (ResponseModel {
                status,
                protocol: "HTTP/1.1"@,
                headers: Seq::empty(),
                payload: payload@,
            }),
    {
        Response { status, protocol: "HTTP/1.1".to_owned(), headers: Headers::new(), payload }
    }

    /// The status line's code and reason.
    pub fn status_to_string(&self) -> (r: &'static str)
        ensures
            r@ == status_text(self.status),
    {
        match self.status {
            HttpStatus::Success => "200 OK",
            HttpStatus::NotFound => "404 NOT FOUND",
            HttpStatus::BadRequest => "400 BAD REQUEST",
            HttpStatus::NotAllowed => "405 METHOD NOT ALLOWED",
            HttpStatus::ServerError => "500 INTERNAL SERVER ERROR",
            HttpStatus::UnsupportedVersion => "505 HTTP VERSION NOT SUPPORTED",
        }
    }

    /// The status line, the header lines and the blank line after them.
    pub fn headers_to_string(&self) -> (r: String)
        ensures
            r@ == head_text(self@),
    {
        let crlf = chars_of("\r\n");
        let mut out = concat_chars(&chars_of(self.protocol.as_str()), &chars_of(" "));
        out = concat_chars(&out, &chars_of(self.status_to_string()));
        out = concat_chars(&out, &crlf);
        out = concat_chars(&out, &self.headers.text_chars());
        out = concat_chars(&out, &crlf);
        string_of(&out)
    }

    /// Sets `Connection`, `Content-Length`, `Date` and `Permissions-Policy`,
    /// with the current time as the date. A clock that reads before the Unix
    /// epoch or past the year 9999 gives the epoch itself.
    pub fn set_default_headers(&mut self)
        ensures
            final(self).status == old(self).status,
            final(self).protocol@ == old(self).protocol@,
            final(self).payload@ == old(self).payload@,
            has_default_headers(final(self)@.headers, old(self)@.payload.len()),
            forall|n: Seq<char>|
                not_default_name(n) ==> #[trigger] header_value(final(self)@.headers, n)
                    == header_value(old(self)@.headers, n),
    {
        let secs: i64 = match unix_seconds_now() {
            Some(s) => if s < LAST_DATE_SECS as u64 {
                s as i64
            } else {
                0
            },
            None => 0,
        };
        self.set_default_headers_at(secs);
    }

    /// Sets `Connection`, `Content-Length`, `Date` for the time `secs` seconds
    /// after the Unix epoch, and `Permissions-Policy`.
    pub fn set_default_headers_at(&mut self, secs: i64)
        requires
            0 <= secs < LAST_DATE_SECS,
        ensures
            final(self).status == old(self).status,
            final(self).protocol@ == old(self).protocol@,
            final(self).payload@ == old(self).payload@,
            has_default_headers(final(self)@.headers, old(self)@.payload.len()),
            header_value(final(self)@.headers, "Date"@) == Some(http_date_text(secs)),
            forall|n: Seq<char>|
                not_default_name(n) ==> #[trigger] header_value(final(self)@.headers, n)
                    == header_value(old(self)@.headers, n),
    {
        proof {
            reveal_strlit("Connection");
            reveal_strlit("Content-Length");
            reveal_strlit("Date");
            reveal_strlit("Permissions-Policy");
        }
        assert("Connection"@.len() == 10 && "Content-Length"@.len() == 14 && "Date"@.len() == 4
            && "Permissions-Policy"@.len() == 18);
        assert("Connection"@ != "Content-Length"@ && "Connection"@ != "Date"@ && "Connection"@
            != "Permissions-Policy"@);
        assert("Content-Length"@ != "Date"@ && "Content-Length"@ != "Permissions-Policy"@);
        assert("Date"@ != "Permissions-Policy"@);
        let length = string_of(&decimal_chars(self.payload.len() as u64));
        let time = match http_date_of(secs) {
            Some(d) => d,
            None => String::new(),
        };
        self.headers.insert("Connection", "close");
        self.headers.insert("Content-Length", length.as_str());
        self.headers.insert("Date", time.as_str());
        self.headers.insert("Permissions-Policy", "interest-cohort=()");
        assert(header_value(self@.headers, "Date"@) == Some(http_date_text(secs)));
    }

    /// Sets `Content-Type` and `Cache-Control` from the content's metadata.
    pub fn set_content_headers(&mut self, headers: &ContentHeaders)
        ensures
            final(self).status == old(self).status,
            final(self).protocol@ == old(self).protocol@,
            final(self).payload@ == old(self).payload@,
            has_content_headers(final(self)@.headers, headers@),
            forall|n: Seq<char>|
                not_content_name(n) ==> #[trigger] header_value(final(self)@.headers, n)
                    == header_value(old(self)@.headers, n),
    {
        proof {
            reveal_strlit("Content-Type");
            reveal_strlit("Cache-Control");
        }
        assert("Content-Type"@.len() == 12 && "Cache-Control"@.len() == 13);
        assert("Content-Type"@ != "Cache-Control"@);
        let cache_control = string_of(
            &concat_chars(&chars_of("max-age="), &decimal_chars(headers.cache_age as u64)),
        );
        self.headers.insert("Content-Type", headers.content_type.as_str());
        self.headers.insert("Cache-Control", cache_control.as_str());
    }

    /// Replaces the payload with its gzip stream and sets `Content-Encoding`,
    /// `Vary` and the new `Content-Length`; on failure nothing changes.
    pub fn compress_gzip(&mut self) -> (r: Result<(), CompressError>)
        ensures
            final(self).status == old(self).status,
            final(self).protocol@ == old(self).protocol@,
            (r is Ok) == (gzip_of(old(self)@.payload) is Some),
            r is Ok ==> {
                &&& gzip_of(old(self)@.payload) == Some(final(self)@.payload)
                &&& header_value(final(self)@.headers, "Content-Encoding"@) == Some("gzip"@)
                &&& header_value(final(self)@.headers, "Vary"@) == Some("Accept-Encoding"@)
                &&& header_value(final(self)@.headers, "Content-Length"@) == Some(
                    decimal(final(self)@.payload.len()),
                )
                &&& forall|n: Seq<char>|
                    not_encoding_name(n) ==> #[trigger] header_value(final(self)@.headers, n)
                        == header_value(old(self)@.headers, n)
            },
            r is Err ==> final(self)@ == old(self)@,
    {
        proof {
            reveal_strlit("Content-Encoding");
            reveal_strlit("Vary");
            reveal_strlit("Content-Length");
        }
        assert("Content-Encoding"@.len() == 16 && "Vary"@.len() == 4 && "Content-Length"@.len()
            == 14);
        assert("Content-Encoding"@ != "Vary"@ && "Content-Encoding"@ != "Content-Length"@);
        assert("Vary"@ != "Content-Length"@);
        match gzip(&self.payload) {
            Some(z) => {
                self.payload = z;
                let length = string_of(&decimal_chars(self.payload.len() as u64));
                self.headers.insert("Content-Encoding", "gzip");
                self.headers.insert("Vary", "Accept-Encoding");
                self.headers.insert("Content-Length", length.as_str());
                Ok(())
            },
            None => Err(CompressError::Failed),
        }
    }

    /// The bytes to send: the head, then the payload if `with_body`.
    pub fn to_bytes(&self, with_body: bool) -> (r: Vec<u8>)
        ensures
            r@ == wire(self@, with_body),
    {
        let head = self.headers_to_string();
        let mut out = vstd::slice::slice_to_vec(head.as_str().as_bytes());
        if with_body {
            let mut body = self.payload.clone();
            out.append(&mut body);
        }
        proof {
            if !with_body {
                assert(out@ =~= wire(self@, with_body));
            }
        }
        out
    }
}

} // verus!
