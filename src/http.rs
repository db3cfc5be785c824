//! Mapping request paths of the preview server to files of the build.

use vstd::prelude::*;
use crate::paths::{join_path, path_joined};
use crate::text::{chars_of, string_of};

verus! {

/// The preview server's address and the directory it serves.
pub struct HttpServer {
    /// Host to listen on.
    pub host: String,
    /// Port to listen on.
    pub port: u16,
    /// Directory whose files are served.
    pub root_dir: String,
}

impl HttpServer {
    /// A server for `root_dir` at `host`:`port`.
    pub fn new(host: String, port: u16, root_dir: String) -> (r: HttpServer)
        ensures
            r.host@ == host@,
            r.port == port,
            r.root_dir@ == root_dir@,
    {
        HttpServer { host, port, root_dir }
    }
}

/// The text that `percent_encoding::percent_decode_str` decodes from `s`,
/// if it is UTF-8.
pub uninterp spec fn percent_decoded(s: Seq<char>) -> Option<Seq<char>>;

/// Relies on `percent_encoding::percent_decode_str` and `decode_utf8`: the
/// text that `s` encodes, or `None` if it is not UTF-8.
#[verifier::external_body]
fn percent_decode(s: &str) -> (r: Option<String>)
    ensures
        match r {
            Some(d) => percent_decoded(s@) == Some(d@),
            None => percent_decoded(s@) is None,
        },
{
    percent_encoding::percent_decode_str(s).decode_utf8().ok().map(|d| d.into_owned())
}

/// `s` up to its first `?`, or all of it.
pub open spec fn before_query(s: Seq<char>) -> Seq<char>
    decreases s.len(),
{
    if s.len() == 0 {
        s
    } else if s[0] == '?' {
        Seq::empty()
    } else {
        seq![s[0]] + before_query(s.drop_first())
    }
}

/// `s` without its leading slashes.
pub open spec fn trim_start_slashes(s: Seq<char>) -> Seq<char>
    decreases s.len(),
{
    if s.len() > 0 && s[0] == '/' {
        trim_start_slashes(s.drop_first())
    } else {
        s
    }
}

/// `"index.html"` as characters.
pub open spec fn index_html() -> Seq<char> {
    seq!['i', 'n', 'd', 'e', 'x', '.', 'h', 't', 'm', 'l']
}

/// The file under `root` that the request path `request` asks for: its
/// query string is dropped, the root path gives `index.html`, and any
/// other path is taken from `root` without its leading slashes.
pub open spec fn local_path(root: Seq<char>, request: Seq<char>) -> Seq<char> {
    let p = before_query(request);
    if p.len() == 0 || p == seq!['/'] {
        path_joined(root, index_html())
    } else {
        path_joined(root, trim_start_slashes(p))
    }
}

/// The file under `root_dir` that the request path `request_path` asks
/// for, see [`local_path`].
pub fn local_path_for_request(root_dir: &str, request_path: &str) -> (r: Option<String>)
    ensures
        r matches Some(p) && p@ == local_path(root_dir@, request_path@),
{
    let cs = chars_of(request_path);
    let mut end: usize = 0;
    assert(cs@.subrange(0, cs@.len() as int) =~= cs@);
    assert(cs@.subrange(0, 0) + before_query(cs@) =~= before_query(cs@));
    while end < cs.len() && cs[end] != '?'
        invariant
            end <= cs@.len(),
            before_query(cs@) == cs@.subrange(0, end as int) + before_query(cs@.subrange(end as int, cs@.len() as int)),
        decreases cs@.len() - end,
    {
        let ghost rest = cs@.subrange(end as int, cs@.len() as int);
        assert(rest.drop_first() =~= cs@.subrange(end + 1, cs@.len() as int));
        assert(cs@.subrange(0, end + 1) =~= cs@.subrange(0, end as int) + seq![cs@[end as int]]);
        end += 1;
    }
    proof {
        let rest = cs@.subrange(end as int, cs@.len() as int);
        if end < cs@.len() {
            assert(rest[0] == '?');
        } else {
            assert(rest.len() == 0);
        }
        assert(before_query(cs@) =~= cs@.subrange(0, end as int));
    }
    let mut start: usize = 0;
    while start < end && cs[start] == '/'
        invariant
            start <= end <= cs@.len(),
            trim_start_slashes(cs@.subrange(0, end as int)) == trim_start_slashes(cs@.subrange(start as int, end as int)),
        decreases end - start,
    {
        assert(cs@.subrange(start as int, end as int).drop_first() =~= cs@.subrange(start + 1, end as int));
        start += 1;
    }
    proof {
        assert(cs@.subrange(0, end as int).subrange(0, 0) =~= cs@.subrange(0, 0));
    }
    let is_root = end == 0 || (end == 1 && cs[0] == '/');
    proof {
        let p = cs@.subrange(0, end as int);
        if end == 1 && cs@[0] == '/' {
            assert(p =~= seq!['/']);
        }
        if p == seq!['/'] {
            assert(p[0] == '/');
        }
        if start < end {
            assert(cs@.subrange(start as int, end as int)[0] != '/');
        }
    }
    if is_root {
        proof {
            reveal_strlit("index.html");
            assert("index.html"@ =~= index_html());
        }
        Some(join_path(root_dir, "index.html"))
    } else {
        let rel = string_of(vstd::slice::slice_subrange(cs.as_slice(), start, end));
        Some(join_path(root_dir, rel.as_str()))
    }
}

/// Serves the files of a directory.
pub struct HttpService {
    /// Directory whose files are served.
    pub root: String,
}

impl HttpService {
    /// The file that the percent-encoded request path `uri_path` asks for,
    /// or `None` if it does not decode to UTF-8.
    pub fn resolve(&self, uri_path: &str) -> (r: Option<String>)
        ensures
            match percent_decoded(uri_path@) {
                Some(d) => r matches Some(p) && p@ == local_path(self.root@, d),
                None => r is None,
            },
    {
        match percent_decode(uri_path) {
            Some(d) => local_path_for_request(self.root.as_str(), d.as_str()),
            None => None,
        }
    }
}

} // verus!
