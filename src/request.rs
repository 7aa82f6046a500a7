use vstd::prelude::*;

use crate::headers::{key_index, with_header, header_value, HeaderModel, Headers};
use crate::text::{
    chars_of, crlf_at, find_char, first_crlf, first_index, lines, pieces, slice_chars, split_char, split_lines,
    lemma_trim_shape, starts_with_chars, string_of, trim, trim_chars, trim_start, trim_start_chars,
};

verus! {

/// A request as the contracts see it.
pub struct RequestModel {
    pub method: Seq<char>,
    pub path: Seq<char>,
    pub protocol: Seq<char>,
    pub headers: Seq<HeaderModel>,
}

/// The header that a line gives: the text before its first colon and the text
/// after it, both trimmed; a line without a colon gives none.
pub open spec fn header_of(line: Seq<char>) -> Option<HeaderModel> {
    let i = first_index(line, ':');
    if 0 <= i < line.len() {
        Some((trim(line.subrange(0, i)), trim(line.subrange(i + 1, line.len() as int))))
    } else {
        None
    }
}

/// The headers that the lines give, each set in turn, so that a later line
/// with the same name replaces the value of an earlier one.
pub open spec fn header_list(ls: Seq<Seq<char>>) -> Seq<HeaderModel>
    decreases ls.len(),
{
    if ls.len() == 0 {
        Seq::empty()
    } else {
        let h = header_list(ls.drop_last());
        match header_of(ls.last()) {
            Some(p) => with_header(h, p.0, p.1),
            None => h,
        }
    }
}

/// What a request text means. The method and the path end at the first and
/// the second space; the rest is cut at each CR LF: its first line is the
/// protocol and the others are header lines. Without two spaces, or without a
/// CR LF after them, there is no request.
pub open spec fn parse_request(s: Seq<char>) -> Option<RequestModel> {
    let i1 = first_index(s, ' ');
    if i1 < 0 || i1 >= s.len() {
        None
    } else {
        let r1 = s.subrange(i1 + 1, s.len() as int);
        let i2 = first_index(r1, ' ');
        if i2 < 0 || i2 >= r1.len() {
            None
        } else {
            let ls = lines(r1.subrange(i2 + 1, r1.len() as int));
            if ls.len() < 2 {
                None
            } else {
                Some(
                    RequestModel {
                        method: s.subrange(0, i1),
                        path: r1.subrange(0, i2),
                        protocol: ls[0],
                        headers: header_list(ls.drop_first()),
                    },
                )
            }
        }
    }
}

/// A header as parsing leaves it: name and value trimmed, no colon in the name.
pub open spec fn clean_header(p: HeaderModel) -> bool {
    &&& trim(p.0) == p.0
    &&& trim(p.1) == p.1
    &&& !p.0.contains(':')
}

proof fn lemma_header_of_clean(line: Seq<char>)
    ensures
        header_of(line) matches Some(p) ==> clean_header(p),
{
    let i = first_index(line, ':');
    if 0 <= i < line.len() {
        assert(line[i] == ':' && forall|j: int| 0 <= j < i ==> line[j] != ':');
        let name = line.subrange(0, i);
        let value = line.subrange(i + 1, line.len() as int);
        lemma_trim_shape(name);
        lemma_trim_shape(value);
        let (a, b) = choose|a: int, b: int| 0 <= a <= b <= name.len() && trim(name) == name.subrange(a, b);
        if trim(name).contains(':') {
            let j = choose|j: int| 0 <= j < trim(name).len() && trim(name)[j] == ':';
            assert(name[a + j] == ':');
        }
    }
}

proof fn lemma_header_list_clean(ls: Seq<Seq<char>>)
    ensures
        forall|j: int| 0 <= j < header_list(ls).len() ==> clean_header(#[trigger] header_list(ls)[j]),
    decreases ls.len(),
{
    if ls.len() > 0 {
        lemma_header_list_clean(ls.drop_last());
        lemma_header_of_clean(ls.last());
        let h = header_list(ls.drop_last());
        if let Some(p) = header_of(ls.last()) {
            let i = key_index(h, p.0);
            if 0 <= i < h.len() {
                assert(header_list(ls) == h.update(i, (p.0, p.1)));
            } else {
                assert(header_list(ls) == h.push((p.0, p.1)));
            }
            assert forall|j: int| 0 <= j < header_list(ls).len() implies clean_header(
                #[trigger] header_list(ls)[j],
            ) by {
                if 0 <= i < h.len() {
                    if j != i {
                        assert(header_list(ls)[j] == h[j]);
                    }
                } else if j < h.len() {
                    assert(header_list(ls)[j] == h[j]);
                }
            }
        }
    }
}

/// What a parsed request is made of: the method and the path hold no space,
/// the protocol holds no CR LF pair, the text begins with the method, a space,
/// the path, a space, the protocol and CR LF, and every header is trimmed with
/// no colon in its name.
pub proof fn lemma_parse_structure(s: Seq<char>)
    ensures
        parse_request(s) matches Some(m) ==> {
            &&& !m.method.contains(' ')
            &&& !m.path.contains(' ')
            &&& forall|i: int| !crlf_at(m.protocol, i)
            &&& m.method.len() + m.path.len() + m.protocol.len() + 4 <= s.len()
            &&& s.subrange(0, (m.method.len() + m.path.len() + m.protocol.len() + 4) as int)
                == m.method + " "@ + m.path + " "@ + m.protocol + "\r\n"@
            &&& forall|j: int| 0 <= j < m.headers.len() ==> clean_header(#[trigger] m.headers[j])
        },
{
    if let Some(m) = parse_request(s) {
        reveal_strlit(" ");
        reveal_strlit("\r\n");
        let i1 = first_index(s, ' ');
        assert(0 <= i1 < s.len() && s[i1] == ' ' && forall|j: int| 0 <= j < i1 ==> s[j] != ' ');
        let r1 = s.subrange(i1 + 1, s.len() as int);
        let i2 = first_index(r1, ' ');
        assert(0 <= i2 < r1.len() && r1[i2] == ' ' && forall|j: int| 0 <= j < i2 ==> r1[j] != ' ');
        let rest = r1.subrange(i2 + 1, r1.len() as int);
        let k = first_crlf(rest);
        if k < 0 || k + 2 > rest.len() {
            assert(lines(rest) == seq![rest]);
        }
        assert(0 <= k && k + 2 <= rest.len());
        assert(crlf_at(rest, k) && forall|j: int| 0 <= j < k ==> !crlf_at(rest, j));
        assert(m.method == s.subrange(0, i1));
        assert(m.path == r1.subrange(0, i2));
        assert(m.protocol == rest.subrange(0, k));
        lemma_header_list_clean(lines(rest).drop_first());
        assert(!m.method.contains(' ')) by {
            if m.method.contains(' ') {
                let j = choose|j: int| 0 <= j < m.method.len() && m.method[j] == ' ';
                assert(s[j] == ' ');
            }
        }
        assert(!m.path.contains(' ')) by {
            if m.path.contains(' ') {
                let j = choose|j: int| 0 <= j < m.path.len() && m.path[j] == ' ';
                assert(r1[j] == ' ');
            }
        }
        assert forall|i: int| !crlf_at(m.protocol, i) by {
            if crlf_at(m.protocol, i) {
                assert(crlf_at(rest, i));
            }
        }
        let n = (m.method.len() + m.path.len() + m.protocol.len() + 4) as int;
        assert(n == i1 + i2 + k + 4);
        assert(s.subrange(0, n) =~= m.method + " "@ + m.path + " "@ + m.protocol + "\r\n"@);
    }
}

/// Whether an `Accept-Encoding` value names gzip: one of its comma-separated
/// tokens, leading whitespace dropped, begins with `gzip`.
pub open spec fn accepts_gzip_value(v: Seq<char>) -> bool {
    exists|i: int|
        0 <= i < pieces(v, ',').len() && #[trigger] trim_start(pieces(v, ',')[i]).len() >= 4
            && trim_start(pieces(v, ',')[i]).subrange(0, 4) == "gzip"@
}

/// Whether a request with these headers may be answered with gzip.
pub open spec fn wants_gzip(h: Seq<HeaderModel>) -> bool {
    match header_value(h, "Accept-Encoding"@) {
        Some(v) => accepts_gzip_value(v),
        None => false,
    }
}

/// Relies on `String::from_utf8_lossy`: the text of the bytes, each invalid
/// sequence replaced; valid UTF-8 is decoded as it is.
pub uninterp spec fn lossy_text(b: Seq<u8>) -> Seq<char>;

/// Relies on `String::from_utf8_lossy`: decodes the bytes, replacing what is
/// not UTF-8.
#[verifier::external_body]
fn decode_lossy(b: &[u8]) -> (r: String)
    ensures
        r@ == lossy_text(b@),
        vstd::utf8::valid_utf8(b@) ==> r@ == vstd::utf8::decode_utf8(b@),
{
    String::from_utf8_lossy(b).into_owned()
}

/// An HTTP request: its request line and its headers.
pub struct Request {
    pub method: String,
    pub path: String,
    pub protocol: String,
    pub headers: Headers,
}

impl View for Request {
    type V = RequestModel;

    open spec fn view(&self) -> RequestModel {
        RequestModel {
            method: self.method@,
            path: self.path@,
            protocol: self.protocol@,
            headers: self.headers@,
        }
    }
}

/// Whether an `Accept-Encoding` value names gzip.
pub fn accepts_gzip(value: &str) -> (r: bool)
    ensures
        r == accepts_gzip_value(value@),
{
    let v = chars_of(value);
    let tokens = split_char(&v, ',');
    let gz = chars_of("gzip");
    proof {
        reveal_strlit("gzip");
        assert("gzip"@.len() == 4);
    }
    let ghost ts = tokens@.map_values(|l: Vec<char>| l@);
    let mut i: usize = 0;
    while i < tokens.len()
        invariant
            i <= tokens.len(),
            ts == pieces(v@, ','),
            ts == tokens@.map_values(|l: Vec<char>| l@),
            gz@ == "gzip"@,
            gz@.len() == 4,
            v@ == value@,
            forall|j: int|
                0 <= j < i ==> !(#[trigger] trim_start(ts[j]).len() >= 4 && trim_start(ts[j]).subrange(0, 4) == "gzip"@),
        decreases tokens.len() - i,
    {
        let t = trim_start_chars(&tokens[i]);
        assert(t@ == trim_start(ts[i as int]));
        if starts_with_chars(&t, &gz) {
            assert(trim_start(ts[i as int]).len() >= 4);
            return true;
        }
        i = i + 1;
    }
    assert(!accepts_gzip_value(value@));
    false
}

impl Request {
    /// Parses a request text; see `parse_request` for what it means.
    pub fn parse(req: &str) -> (r: Option<Request>)
        ensures
            match r {
                Some(q) => parse_request(req@) == Some(q@),
                None => parse_request(req@) is None,
            },
    {
        let v = chars_of(req);
        Self::parse_chars(&v)
    }

    /// Parses the bytes of a request, decoding them as UTF-8 with each invalid
    /// sequence replaced.
    pub fn parse_bytes(buf: &[u8]) -> (r: Option<Request>)
        ensures
            match r {
                Some(q) => parse_request(lossy_text(buf@)) == Some(q@),
                None => parse_request(lossy_text(buf@)) is None,
            },
    {
        let s = decode_lossy(buf);
        Self::parse(s.as_str())
    }

    fn parse_chars(v: &Vec<char>) -> (r: Option<Request>)
        ensures
            match r {
                Some(q) => parse_request(v@) == Some(q@),
                None => parse_request(v@) is None,
            },
    {
        let f1 = find_char(v, ' ');
        if f1.is_none() {
            return None;
        }
        let i1 = f1.unwrap();
        assert(i1 < v.len());
        let r1 = slice_chars(v, i1 + 1, v.len());
        let f2 = find_char(&r1, ' ');
        if f2.is_none() {
            return None;
        }
        let i2 = f2.unwrap();
        let rest = slice_chars(&r1, i2 + 1, r1.len());
        let ls = split_lines(&rest);
        let ghost lv = ls@.map_values(|l: Vec<char>| l@);
        if ls.len() < 2 {
            return None;
        }
        let mut headers = Headers::new();
        let mut k: usize = 1;
        assert(lv.drop_first().subrange(0, 0) =~= Seq::<Seq<char>>::empty());
        while k < ls.len()
            invariant
                1 <= k <= ls.len(),
                lv == ls@.map_values(|l: Vec<char>| l@),
                headers@ == header_list(lv.drop_first().subrange(0, k - 1)),
            decreases ls.len() - k,
        {
            let ghost before = lv.drop_first().subrange(0, k - 1);
            assert(lv.drop_first().subrange(0, k as int).drop_last() =~= before);
            assert(lv.drop_first().subrange(0, k as int).last() == ls@[k as int]@);
            let line = &ls[k];
            match find_char(line, ':') {
                Some(c) => {
                    let name = trim_chars(&slice_chars(line, 0, c));
                    let value = trim_chars(&slice_chars(line, c + 1, line.len()));
                    headers.insert_chars(name, value);
                },
                None => {},
            }
            k = k + 1;
        }
        assert(lv.drop_first().subrange(0, ls.len() - 1) =~= lv.drop_first());
        let method = string_of(&slice_chars(v, 0, i1));
        let path = string_of(&slice_chars(&r1, 0, i2));
        let protocol = string_of(&ls[0]);
        Some(Request { method, path, protocol, headers })
    }

    /// The value of the header named exactly `name`.
    pub fn header(&self, name: &str) -> (r: Option<String>)
        ensures
            match r {
                Some(s) => header_value(self@.headers, name@) == Some(s@),
                None => header_value(self@.headers, name@) is None,
            },
    {
        self.headers.get(name)
    }

    /// Whether the request's `Accept-Encoding` header names gzip.
    pub fn wants_gzip(&self) -> (r: bool)
        ensures
            r == wants_gzip(self@.headers),
    {
        match self.headers.get("Accept-Encoding") {
            Some(v) => accepts_gzip(v.as_str()),
            None => false,
        }
    }
}

} // verus!
