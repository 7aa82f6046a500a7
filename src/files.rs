use vstd::prelude::*;

use crate::text::{chars_eq, chars_of, string_of};

verus! {

/// Response metadata for a kind of file, as the contracts see it: the content
/// type, the cache lifetime in seconds and whether gzip may be applied.
pub type PolicyModel = (Seq<char>, u32, bool);

pub const MINUTE: u32 = 60;

pub const HOUR: u32 = 3600;

pub const DAY: u32 = 86400;

/// The metadata for a file extension (case-sensitive, without the dot).
pub open spec fn policy(ext: Seq<char>) -> PolicyModel {
    if ext == "html"@ {
        ("text/html; charset=UTF-8"@, MINUTE, true)
    } else if ext == "css"@ {
        ("text/css; charset=UTF-8"@, (3 * DAY) as u32, true)
    } else if ext == "js"@ {
        ("text/javascript; charset=UTF-8"@, (3 * DAY) as u32, true)
    } else if ext == "txt"@ {
        ("text/plain; charset=UTF-8"@, MINUTE, true)
    } else if ext == "json"@ {
        ("application/json; charset=UTF-8"@, HOUR, true)
    } else if ext == "svg"@ {
        ("image/svg+xml; charset=UTF-8"@, (7 * DAY) as u32, true)
    } else if ext == "webp"@ {
        ("image/webp"@, (3 * DAY) as u32, false)
    } else if ext == "jpg"@ || ext == "jpeg"@ {
        ("image/jpeg"@, (3 * DAY) as u32, false)
    } else if ext == "ico"@ {
        ("image/x-icon"@, (7 * DAY) as u32, false)
    } else if ext == "png"@ {
        ("image/png"@, (3 * DAY) as u32, false)
    } else if ext == "otf"@ {
        ("font/otf"@, (7 * DAY) as u32, true)
    } else if ext == "ttf"@ {
        ("font/ttf"@, (7 * DAY) as u32, true)
    } else if ext == "mp4"@ {
        ("video/mp4"@, DAY, false)
    } else if ext == "mp3"@ {
        ("audio/mp3"@, DAY, false)
    } else {
        ("application/octet-stream"@, MINUTE, false)
    }
}

/// Whether the extension has an entry of its own in the table.
pub open spec fn known_extension(ext: Seq<char>) -> bool {
    ext == "html"@ || ext == "css"@ || ext == "js"@ || ext == "txt"@ || ext == "json"@ || ext
        == "svg"@ || ext == "webp"@ || ext == "jpg"@ || ext == "jpeg"@ || ext == "ico"@ || ext
        == "png"@ || ext == "otf"@ || ext == "ttf"@ || ext == "mp4"@ || ext == "mp3"@
}

/// An extension without an entry gets `application/octet-stream`, a minute of
/// caching and no compression.
pub proof fn lemma_unknown_extension(ext: Seq<char>)
    requires
        !known_extension(ext),
    ensures
        policy(ext) == ("application/octet-stream"@, 60u32, false),
{
}

/// Relies on `Path::extension`: the text after the last dot of the file name,
/// a leading dot excepted.
pub uninterp spec fn extension_of(p: Seq<char>) -> Option<Seq<char>>;

/// The extension that decides a file's metadata: none counts as empty.
pub open spec fn policy_extension(p: Seq<char>) -> Seq<char> {
    match extension_of(p) {
        Some(e) => e,
        None => Seq::empty(),
    }
}

/// The path of the requested file under the served root: one leading `/` or
/// `\` of the request path dropped, the rest joined to the root by `/`.
pub open spec fn candidate_path(root: Seq<char>, req: Seq<char>) -> Seq<char> {
    let rel = if req.len() > 0 && (req[0] == '/' || req[0] == '\\') {
        req.drop_first()
    } else {
        req
    };
    root + "/"@ + rel
}

/// The candidate with `.html` appended.
pub open spec fn html_path(p: Seq<char>) -> Seq<char> {
    p + ".html"@
}

/// `index.html` inside the candidate directory, joined as `Path::join` does.
pub open spec fn index_path(p: Seq<char>) -> Seq<char> {
    if p.len() > 0 && p.last() != '/' {
        p + "/index.html"@
    } else {
        p + "index.html"@
    }
}

/// The first rule that matches, given what the filesystem reports: the path as
/// a file; else, without an extension, the path with `.html`; else, for a
/// directory, its `index.html`.
pub open spec fn pick(
    p: Seq<char>,
    is_file: bool,
    html_is_file: bool,
    is_dir: bool,
    index_is_file: bool,
) -> Option<Seq<char>> {
    if is_file {
        Some(p)
    } else if extension_of(p) is None && html_is_file {
        Some(html_path(p))
    } else if is_dir && index_is_file {
        Some(index_path(p))
    } else {
        None
    }
}

/// Whether `p` ends in a dot and then `e`, a non-empty text without dots or
/// slashes, with something other than a slash before that dot: the last
/// component of `p` then has the extension `e`.
pub open spec fn ends_with_extension(p: Seq<char>, e: Seq<char>) -> bool {
    &&& e.len() > 0
    &&& p.len() > e.len() + 1
    &&& forall|i: int| 0 <= i < e.len() ==> e[i] != '.' && e[i] != '/'
    &&& p.subrange(p.len() - e.len(), p.len() as int) == e
    &&& p[p.len() - e.len() - 1] == '.'
    &&& p[p.len() - e.len() - 2] != '/'
}

/// Relies on `Path::canonicalize`: `c` is a form that canonicalisation gave for
/// `p` (absolute, links and `..` resolved). No uniqueness is claimed.
pub uninterp spec fn canonical_form(p: Seq<char>, c: Seq<char>) -> bool;

/// Relies on `Path::starts_with`: whether `base` is a whole-component prefix of `p`.
pub uninterp spec fn path_within(p: Seq<char>, base: Seq<char>) -> bool;

/// Relies on `Path::extension` and `OsStr::to_str`.
#[verifier::external_body]
fn path_extension(p: &str) -> (r: Option<String>)
    ensures
        match r {
            Some(e) => extension_of(p@) == Some(e@),
            None => extension_of(p@) is None,
        },
        !p@.contains('.') ==> r is None,
        forall|e: Seq<char>| #[trigger] ends_with_extension(p@, e) ==> r is Some && r->0@ == e,
{
    std::path::Path::new(p).extension().map(|e| e.to_string_lossy().into_owned())
}

/// Relies on `Path::is_file`: what the filesystem reports at the time of the call.
#[verifier::external_body]
fn probe_file(p: &str) -> (r: bool) {
    std::path::Path::new(p).is_file()
}

/// Relies on `Path::is_dir`: what the filesystem reports at the time of the call.
#[verifier::external_body]
fn probe_dir(p: &str) -> (r: bool) {
    std::path::Path::new(p).is_dir()
}

/// Relies on `Path::canonicalize`: the absolute path with links and `..`
/// resolved, if the filesystem gives one and it is UTF-8.
#[verifier::external_body]
fn canonical(p: &str) -> (r: Option<String>)
    ensures
        match r {
            Some(c) => canonical_form(p@, c@),
            None => true,
        },
{
    match std::path::Path::new(p).canonicalize() {
        Ok(c) => c.to_str().map(|s| s.to_string()),
        Err(_) => None,
    }
}

/// Relies on `Path::starts_with`.
#[verifier::external_body]
fn starts_with_path(p: &str, base: &str) -> (r: bool)
    ensures
        r == path_within(p@, base@),
{
    std::path::Path::new(p).starts_with(std::path::Path::new(base))
}

/// Content metadata of a file.
pub struct ContentHeaders {
    pub content_type: String,
    pub cache_age: u32,
    pub compress: bool,
}

impl View for ContentHeaders {
    type V = PolicyModel;

    open spec fn view(&self) -> PolicyModel {
        (self.content_type@, self.cache_age, self.compress)
    }
}

fn is_ext(e: &Vec<char>, name: &str) -> (r: bool)
    ensures
        r == (e@ == name@),
{
    chars_eq(e, &chars_of(name))
}

fn policy_entry(content_type: &str, cache_age: u32, compress: bool) -> (r: ContentHeaders)
    ensures
        r@ == (content_type@, cache_age, compress),
{
    ContentHeaders { content_type: content_type.to_owned(), cache_age, compress }
}

impl ContentHeaders {
    /// The metadata for a file extension (without the dot).
    pub fn for_extension(ext: &str) -> (r: ContentHeaders)
        ensures
            r@ == policy(ext@),
    {
        let e = chars_of(ext);
        if is_ext(&e, "html") {
            policy_entry("text/html; charset=UTF-8", MINUTE, true)
        } else if is_ext(&e, "css") {
            policy_entry("text/css; charset=UTF-8", 3 * DAY, true)
        } else if is_ext(&e, "js") {
            policy_entry("text/javascript; charset=UTF-8", 3 * DAY, true)
        } else if is_ext(&e, "txt") {
            policy_entry("text/plain; charset=UTF-8", MINUTE, true)
        } else if is_ext(&e, "json") {
            policy_entry("application/json; charset=UTF-8", HOUR, true)
        } else if is_ext(&e, "svg") {
            policy_entry("image/svg+xml; charset=UTF-8", 7 * DAY, true)
        } else if is_ext(&e, "webp") {
            policy_entry("image/webp", 3 * DAY, false)
        } else if is_ext(&e, "jpg") || is_ext(&e, "jpeg") {
            policy_entry("image/jpeg", 3 * DAY, false)
        } else if is_ext(&e, "ico") {
            policy_entry("image/x-icon", 7 * DAY, false)
        } else if is_ext(&e, "png") {
            policy_entry("image/png", 3 * DAY, false)
        } else if is_ext(&e, "otf") {
            policy_entry("font/otf", 7 * DAY, true)
        } else if is_ext(&e, "ttf") {
            policy_entry("font/ttf", 7 * DAY, true)
        } else if is_ext(&e, "mp4") {
            policy_entry("video/mp4", DAY, false)
        } else if is_ext(&e, "mp3") {
            policy_entry("audio/mp3", DAY, false)
        } else {
            policy_entry("application/octet-stream", MINUTE, false)
        }
    }
}

/// Which file a candidate path stands for, given what the filesystem reports
/// about it; see `pick`.
pub fn pick_file(
    path: &str,
    is_file: bool,
    html_is_file: bool,
    is_dir: bool,
    index_is_file: bool,
) -> (r: Option<String>)
    ensures
        match r {
            Some(f) => pick(path@, is_file, html_is_file, is_dir, index_is_file) == Some(f@),
            None => pick(path@, is_file, html_is_file, is_dir, index_is_file) is None,
        },
{
    if is_file {
        Some(path.to_owned())
    } else if path_extension(path).is_none() && html_is_file {
        Some(string_of(&crate::text::concat_chars(&chars_of(path), &chars_of(".html"))))
    } else if is_dir && index_is_file {
        Some(join_index(path))
    } else {
        None
    }
}

fn join_index(p: &str) -> (r: String)
    ensures
        r@ == index_path(p@),
{
    let v = chars_of(p);
    if v.len() > 0 && v[v.len() - 1] != '/' {
        string_of(&crate::text::concat_chars(&v, &chars_of("/index.html")))
    } else {
        string_of(&crate::text::concat_chars(&v, &chars_of("index.html")))
    }
}

/// Looks the candidate path up on the filesystem and applies the resolution
/// rules to what it reports.
fn resolve_file_path(path: String) -> (r: Option<String>)
    ensures
        match r {
            Some(f) => exists|a: bool, b: bool, c: bool, d: bool| pick(path@, a, b, c, d) == Some(f@),
            None => true,
        },
{
    let is_file = probe_file(path.as_str());
    let html = string_of(&crate::text::concat_chars(&chars_of(path.as_str()), &chars_of(".html")));
    let html_is_file = probe_file(html.as_str());
    let is_dir = probe_dir(path.as_str());
    let index = join_index(path.as_str());
    let index_is_file = probe_file(index.as_str());
    pick_file(path.as_str(), is_file, html_is_file, is_dir, index_is_file)
}

/// The sandbox rule on what canonicalisation gave: both forms exist and the
/// path lies within the root.
pub fn sandbox_admits(canonical_root: &Option<String>, canonical_path: &Option<String>) -> (r: bool)
    ensures
        r == match (canonical_root, canonical_path) {
            (Some(cr), Some(cp)) => path_within(cp@, cr@),
            _ => false,
        },
{
    match (canonical_root, canonical_path) {
        (Some(cr), Some(cp)) => starts_with_path(cp.as_str(), cr.as_str()),
        _ => false,
    }
}

/// The canonical forms of the root and of the path, when the filesystem gives
/// both and the path lies within the root.
fn in_serve_folder(root: &str, path: &str) -> (r: Option<(String, String)>)
    ensures
        match r {
            Some(c) => path_within(c.1@, c.0@) && canonical_form(root@, c.0@) && canonical_form(
                path@,
                c.1@,
            ),
            None => true,
        },
{
    let croot = canonical(root);
    let cpath = canonical(path);
    if sandbox_admits(&croot, &cpath) {
        match (croot, cpath) {
            (Some(cr), Some(cp)) => Some((cr, cp)),
            _ => None,
        }
    } else {
        None
    }
}

/// A file in the served folder as the contracts see it: its path, and the
/// canonical forms of the root and of the path that the sandbox check compared.
pub struct ContentModel {
    pub file_path: Seq<char>,
    pub canonical_root: Seq<char>,
    pub canonical_path: Seq<char>,
}

/// A file in the served folder.
pub struct HttpContent {
    file_path: String,
    canonical_root: String,
    canonical_path: String,
}

impl View for HttpContent {
    type V = ContentModel;

    closed spec fn view(&self) -> ContentModel {
        ContentModel {
            file_path: self.file_path@,
            canonical_root: self.canonical_root@,
            canonical_path: self.canonical_path@,
        }
    }
}

/// Whether `c` is a file that a request for `req` under `root` may be served:
/// one of the resolution rules gives its path, its canonical path lies within
/// the canonical root, and those are the canonical forms of the file's path
/// and of `root`.
pub open spec fn resolves_to(c: ContentModel, root: Seq<char>, req: Seq<char>) -> bool {
    &&& exists|a: bool, b: bool, d: bool, e: bool|
        pick(candidate_path(root, req), a, b, d, e) == Some(c.file_path)
    &&& path_within(c.canonical_path, c.canonical_root)
    &&& canonical_form(root, c.canonical_root)
    &&& canonical_form(c.file_path, c.canonical_path)
}

impl HttpContent {
    /// The file that `content_path` names in the folder `serve_path`, if it
    /// exists there and lies within it.
    pub fn new(serve_path: &str, content_path: &str) -> (r: Option<HttpContent>)
        ensures
            match r {
                Some(c) => resolves_to(c@, serve_path@, content_path@),
                None => true,
            },
    {
        let req = chars_of(content_path);
        let rel = if req.len() > 0 && (req[0] == '/' || req[0] == '\\') {
            crate::text::slice_chars(&req, 1, req.len())
        } else {
            req.clone()
        };
        let mut joined = crate::text::concat_chars(&chars_of(serve_path), &chars_of("/"));
        joined = crate::text::concat_chars(&joined, &rel);
        assert(rel@ == (if content_path@.len() > 0 && (content_path@[0] == '/' || content_path@[0] == '\\') {
            content_path@.drop_first()
        } else {
            content_path@
        }));
        let combined = string_of(&joined);
        let file_path = match resolve_file_path(combined) {
            Some(f) => f,
            None => return None,
        };
        match in_serve_folder(serve_path, file_path.as_str()) {
            Some((canonical_root, canonical_path)) => {
                Some(HttpContent { file_path, canonical_root, canonical_path })
            },
            None => None,
        }
    }

    /// The path of the file.
    pub fn file_path(&self) -> (r: String)
        ensures
            r@ == self@.file_path,
    {
        self.file_path.clone()
    }

    /// The content metadata for the file, chosen by its extension.
    pub fn content_headers(&self) -> (r: ContentHeaders)
        ensures
            r@ == policy(policy_extension(self@.file_path)),
    {
        match path_extension(self.file_path.as_str()) {
            Some(e) => ContentHeaders::for_extension(e.as_str()),
            None => {
                proof {
                    reveal_strlit("");
                }
                assert(""@ =~= Seq::<char>::empty());
                ContentHeaders::for_extension("")
            },
        }
    }
}

} // verus!
