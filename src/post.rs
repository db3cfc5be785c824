//! Posts: one markdown file each, made of a YAML head and a body separated
//! by the first blank line.

use vstd::prelude::*;
use vstd::string::StringExecFns;
use crate::error::Error;
use crate::head::{created_field, flag_field, head_error, head_fields, head_ok, list_field, parse_head, text_field, PostHeaders};
use crate::markup::{commonmark_html, markdown_to_html, math_marked};
use crate::paths::{file_stem, join_path, path_file_stem, path_joined, path_with_extension, with_extension};
use crate::text::{chars_of, push_char, string_of};

verus! {

/// A point in time with the UTC offset it was written in.
#[derive(Clone, Copy, Debug, PartialEq, Eq, Structural)]
pub struct Timestamp {
    /// Whole seconds since the Unix epoch.
    pub secs: i64,
    /// Nanoseconds past `secs`.
    pub nanos: u32,
    /// Offset from UTC, in seconds, of the time as written.
    pub offset_secs: i32,
}

impl Timestamp {
    /// `self` is the same instant as `other` or a later one.
    pub open spec fn not_before(self, other: Timestamp) -> bool {
        self.secs > other.secs || (self.secs == other.secs && self.nanos >= other.nanos)
    }

    /// Whether `self` is the same instant as `other` or a later one.
    pub fn is_not_before(&self, other: &Timestamp) -> (r: bool)
        ensures
            r == self.not_before(*other),
    {
        self.secs > other.secs || (self.secs == other.secs && self.nanos >= other.nanos)
    }
}

/// There is a blank line boundary (two newlines in a row) at `i`.
pub open spec fn blank_line_at(s: Seq<char>, i: int) -> bool {
    0 <= i && i + 1 < s.len() && s[i] == '\n' && s[i + 1] == '\n'
}

/// Position of the first blank line boundary in `s` at or after `i`.
pub open spec fn first_blank_line_from(s: Seq<char>, i: int) -> Option<int>
    decreases s.len() - i,
{
    if i < 0 || i + 1 >= s.len() {
        None
    } else if blank_line_at(s, i) {
        Some(i)
    } else {
        first_blank_line_from(s, i + 1)
    }
}

/// Position of the first blank line boundary in `s`.
pub open spec fn first_blank_line(s: Seq<char>) -> Option<int> {
    first_blank_line_from(s, 0)
}

/// `s` cut at its first blank line boundary, which belongs to neither part.
pub open spec fn split_at_blank_line(s: Seq<char>) -> Option<(Seq<char>, Seq<char>)> {
    match first_blank_line(s) {
        Some(i) => Some((s.subrange(0, i), s.subrange(i + 2, s.len() as int))),
        None => None,
    }
}

/// Text of `s` up to its first blank line boundary, or all of it.
pub open spec fn first_paragraph(s: Seq<char>) -> Seq<char> {
    match first_blank_line(s) {
        Some(i) => s.subrange(0, i),
        None => s,
    }
}

proof fn lemma_first_blank_line_from_bounds(s: Seq<char>, i: int)
    requires
        0 <= i,
    ensures
        match first_blank_line_from(s, i) {
            Some(k) => i <= k && blank_line_at(s, k),
            None => true,
        },
    decreases s.len() - i,
{
    if i + 1 < s.len() && !blank_line_at(s, i) {
        lemma_first_blank_line_from_bounds(s, i + 1);
    }
}

/// Position of the first blank line boundary in `cs`.
pub fn find_blank_line(cs: &Vec<char>) -> (r: Option<usize>)
    ensures
        r matches Some(i) ==> first_blank_line(cs@) == Some(i as int),
        r is None ==> first_blank_line(cs@) is None,
{
    let mut i: usize = 0;
    while cs.len() - i >= 2
        invariant
            i <= cs@.len(),
            first_blank_line(cs@) == first_blank_line_from(cs@, i as int),
        decreases cs@.len() - i,
    {
        if cs[i] == '\n' && cs[i + 1] == '\n' {
            return Some(i);
        }
        i += 1;
    }
    None
}

/// Splits `content` at its first blank line boundary into head and body.
pub fn split_head_body(content: &str) -> (r: Option<(String, String)>)
    ensures
        match r {
            Some((h, b)) => split_at_blank_line(content@) == Some((h@, b@)),
            None => split_at_blank_line(content@) is None,
        },
{
    let cs = chars_of(content);
    match find_blank_line(&cs) {
        Some(i) => {
            proof {
                lemma_first_blank_line_from_bounds(cs@, 0);
            }
            let head = string_of(slice_range(&cs, 0, i));
            let body = string_of(slice_range(&cs, i + 2, cs.len()));
            Some((head, body))
        },
        None => None,
    }
}

/// Text of `s` up to its first blank line boundary, or all of it.
pub fn first_paragraph_of(s: &str) -> (r: String)
    ensures
        r@ == first_paragraph(s@),
{
    let cs = chars_of(s);
    match find_blank_line(&cs) {
        Some(i) => {
            proof {
                lemma_first_blank_line_from_bounds(cs@, 0);
            }
            string_of(slice_range(&cs, 0, i))
        },
        None => string_of(cs.as_slice()),
    }
}

fn slice_range(v: &Vec<char>, from: usize, to: usize) -> (r: &[char])
    requires
        from <= to <= v@.len(),
    ensures
        r@ == v@.subrange(from as int, to as int),
{
    vstd::slice::slice_subrange(v.as_slice(), from, to)
}

/// `s` without its leading and trailing white space, as `str::trim` gives it.
pub uninterp spec fn trimmed(s: Seq<char>) -> Seq<char>;

/// The words of `s`, as `str::split_whitespace` gives them.
pub uninterp spec fn whitespace_words(s: Seq<char>) -> Seq<Seq<char>>;

/// Relies on `str::trim`: `s` without leading and trailing white space.
#[verifier::external_body]
fn trim_str(s: &str) -> (r: String)
    ensures
        r@ == trimmed(s@),
{
    s.trim().to_owned()
}

/// Relies on `str::split_whitespace`: the words of `s`.
#[verifier::external_body]
fn words(s: &str) -> (r: Vec<String>)
    ensures
        r@.map_values(|w: String| w@) == whitespace_words(s@),
{
    s.split_whitespace().map(String::from).collect()
}

/// Most words that a derived description keeps.
pub const SUMMARY_WORDS: usize = 100;

/// `ws` joined with single spaces.
pub open spec fn join_words(ws: Seq<Seq<char>>) -> Seq<char>
    decreases ws.len(),
{
    if ws.len() == 0 {
        Seq::empty()
    } else if ws.len() == 1 {
        ws[0]
    } else {
        join_words(ws.drop_last()) + seq![' '] + ws.last()
    }
}

/// The description derived from a post body: the first words of its first
/// paragraph joined with spaces, followed by `...`; empty if there are none.
pub open spec fn summary(body: Seq<char>) -> Seq<char> {
    let ws = whitespace_words(first_paragraph(body));
    let kept = if ws.len() > SUMMARY_WORDS { ws.subrange(0, SUMMARY_WORDS as int) } else { ws };
    let joined = join_words(kept);
    if joined.len() == 0 {
        joined
    } else {
        joined + seq!['.', '.', '.']
    }
}

/// The description derived from `body`, see [`summary`].
pub fn summarize(body: &str) -> (r: String)
    ensures
        r@ == summary(body@),
{
    let para = first_paragraph_of(body);
    let ws = words(para.as_str());
    let ghost all = ws@.map_values(|w: String| w@);
    let n = if ws.len() > SUMMARY_WORDS { SUMMARY_WORDS } else { ws.len() };
    let ghost kept = all.subrange(0, n as int);
    let mut r = String::new();
    let mut i: usize = 0;
    while i < n
        invariant
            i <= n <= ws@.len(),
            all == ws@.map_values(|w: String| w@),
            kept == all.subrange(0, n as int),
            r@ == join_words(kept.subrange(0, i as int)),
        decreases n - i,
    {
        if i > 0 {
            push_char(&mut r, ' ');
        }
        r.append(ws[i].as_str());
        assert(kept.subrange(0, i + 1).drop_last() =~= kept.subrange(0, i as int));
        i += 1;
    }
    assert(kept.subrange(0, n as int) =~= kept);
    assert(kept =~= (if all.len() > SUMMARY_WORDS { all.subrange(0, SUMMARY_WORDS as int) } else { all }));
    if !r.as_str().is_empty() {
        r.append("...");
        proof {
            reveal_strlit("...");
        }
    }
    r
}

/// Gives `headers` the description derived from `body` when it has none.
pub fn fill_description(headers: &mut PostHeaders, body: &str)
    ensures
        final(headers).created == old(headers).created,
        final(headers).hidden == old(headers).hidden,
        final(headers).tags@ == old(headers).tags@,
        final(headers).description@ == (if old(headers).description@.len() == 0 {
            summary(body@)
        } else {
            old(headers).description@
        }),
{
    if headers.description.as_str().is_empty() {
        headers.description = summarize(body);
    }
}

/// One post, loaded from a markdown file.
#[derive(Debug)]
pub struct Post {
    /// Directory of the blog the post belongs to.
    pub root: String,
    /// Path of the post's file, from the blog's directory.
    pub path: String,
    /// Title: the file's stem.
    pub title: String,
    /// URL of the post's page, from the site's root.
    pub url: String,
    /// Fields of the head; an empty description is derived from the body.
    pub headers: PostHeaders,
    /// HTML of the body.
    pub content: String,
}

/// `".html"` without its dot.
pub open spec fn html_ext() -> Seq<char> {
    seq!['h', 't', 'm', 'l']
}

/// `hd` holds what the head `head` gives, its description derived from
/// `body` when the head has none.
pub open spec fn headers_loaded(hd: PostHeaders, head: Seq<char>, body: Seq<char>) -> bool {
    match head_fields(head) {
        Some((c, h, t, d)) => {
            &&& created_field(c) == Some(hd.created)
            &&& flag_field(h) == Some(hd.hidden)
            &&& list_field(t) == Some(hd.tags@.map_values(|s: String| s@))
            &&& match text_field(d) {
                Some(given) => hd.description@ == (if given.len() == 0 { summary(body) } else { given }),
                None => false,
            }
        },
        None => false,
    }
}

/// The file text `content` at `path` loads as a post: it splits into a
/// head and a body that are not blank once trimmed, the path has a file
/// stem, and the trimmed head gives valid headers.
pub open spec fn post_loads(path: Seq<char>, content: Seq<char>) -> bool {
    match split_at_blank_line(content) {
        Some((h, b)) => trimmed(h).len() > 0 && trimmed(b).len() > 0 && path_file_stem(path) is Some && head_ok(trimmed(h)),
        None => false,
    }
}

/// `post` is the post loaded from `content` at `path` under `root`.
pub open spec fn loaded_post(post: Post, root: Seq<char>, path: Seq<char>, content: Seq<char>) -> bool {
    match split_at_blank_line(content) {
        Some((h, b)) => {
            &&& post.root@ == root
            &&& post.path@ == path
            &&& Some(post.title@) == path_file_stem(path)
            &&& post.url@ == seq!['/'] + path_with_extension(path, html_ext())
            &&& post.content@ == commonmark_html(math_marked(trimmed(b)))
            &&& headers_loaded(post.headers, trimmed(h), trimmed(b))
        },
        None => false,
    }
}

/// `e` is the error of loading `content` at `path`: no blank line, then a
/// blank head, then a blank body, then a path without file stem, then the
/// head's own error.
pub open spec fn load_error(e: Error, path: Seq<char>, content: Seq<char>) -> bool {
    match split_at_blank_line(content) {
        None => e matches Error::PostOnlyOnePart(p) && p@ == path,
        Some((h, b)) => if trimmed(h).len() == 0 {
            e matches Error::PostNoHead(p) && p@ == path
        } else if trimmed(b).len() == 0 {
            e matches Error::PostNoBody(p) && p@ == path
        } else if path_file_stem(path) is None {
            e matches Error::PostPathInvalid(p) && p@ == path
        } else {
            e matches Error::PostHead(p, he) && p@ == path && head_error(he, trimmed(h))
        },
    }
}

/// `r` is what loading `content` at `path` under `root` gives.
pub open spec fn load_result(r: Result<Post, Error>, root: Seq<char>, path: Seq<char>, content: Seq<char>) -> bool {
    &&& r is Ok <==> post_loads(path, content)
    &&& r matches Ok(post) ==> loaded_post(post, root, path, content)
    &&& r matches Err(e) ==> load_error(e, path, content)
}

proof fn lemma_first_blank_after_head(h: Seq<char>, b: Seq<char>, i: int)
    requires
        0 <= i <= h.len(),
        forall|k: int| !blank_line_at(h, k),
        !(h.len() > 0 && h.last() == '\n'),
    ensures
        first_blank_line_from(h + seq!['\n', '\n'] + b, i) == Some(h.len() as int),
    decreases h.len() - i,
{
    let c = h + seq!['\n', '\n'] + b;
    if i < h.len() {
        if i + 1 < h.len() {
            assert(!blank_line_at(h, i));
            assert(c[i] == h[i] && c[i + 1] == h[i + 1]);
        } else {
            assert(c[i] == h.last());
        }
        lemma_first_blank_line_from_bounds(c, i + 1);
        lemma_first_blank_after_head(h, b, i + 1);
    } else {
        assert(c[i] == '\n' && c[i + 1] == '\n');
    }
}

/// A file made of a head without blank line and not ending in a newline,
/// a blank line and a body is cut between them; so it is refused as having
/// no head when the head is blank once trimmed, and as having no body when
/// the head is not blank but the body is.
pub proof fn blank_parts_refused(r: Result<Post, Error>, root: Seq<char>, path: Seq<char>, h: Seq<char>, b: Seq<char>)
    requires
        forall|k: int| !blank_line_at(h, k),
        !(h.len() > 0 && h.last() == '\n'),
        load_result(r, root, path, h + seq!['\n', '\n'] + b),
    ensures
        split_at_blank_line(h + seq!['\n', '\n'] + b) == Some((h, b)),
        trimmed(h).len() == 0 ==> (r matches Err(Error::PostNoHead(p)) && p@ == path),
        trimmed(h).len() > 0 && trimmed(b).len() == 0 ==> (r matches Err(Error::PostNoBody(p)) && p@ == path),
{
    let c = h + seq!['\n', '\n'] + b;
    lemma_first_blank_after_head(h, b, 0);
    assert(c.subrange(0, h.len() as int) =~= h);
    assert(c.subrange(h.len() as int + 2, c.len() as int) =~= b);
}

/// A file without blank line is refused as having one part.
pub proof fn one_part_refused(r: Result<Post, Error>, root: Seq<char>, path: Seq<char>, content: Seq<char>)
    requires
        forall|k: int| !blank_line_at(content, k),
        load_result(r, root, path, content),
    ensures
        r matches Err(Error::PostOnlyOnePart(p)) && p@ == path,
{
    lemma_first_blank_line_from_bounds(content, 0);
}

/// A post as plain values.
pub open spec fn post_view(p: Post) -> (
    Seq<char>,
    Seq<char>,
    Seq<char>,
    Seq<char>,
    Timestamp,
    bool,
    Seq<Seq<char>>,
    Seq<char>,
    Seq<char>,
) {
    (
        p.root@,
        p.path@,
        p.title@,
        p.url@,
        p.headers.created,
        p.headers.hidden,
        p.headers.tags@.map_values(|s: String| s@),
        p.headers.description@,
        p.content@,
    )
}

/// Loading the same file text at the same path gives the same post.
pub proof fn loaded_post_unique(p: Post, q: Post, root: Seq<char>, path: Seq<char>, content: Seq<char>)
    requires
        loaded_post(p, root, path, content),
        loaded_post(q, root, path, content),
    ensures
        post_view(p) == post_view(q),
{
}

impl Post {
    /// Loads the post at `path` (from the blog directory `root`) whose file
    /// holds `content`. The content is cut at its first blank line into a
    /// head and a body, both trimmed; the head is read as YAML.
    pub fn new(root: &str, path: &str, content: &str) -> (r: Result<Post, Error>)
        ensures
            split_at_blank_line(content@) is None <==> (r matches Err(Error::PostOnlyOnePart(p)) && p@ == path@),
            match split_at_blank_line(content@) {
                None => true,
                Some((h, b)) => {
                    &&& trimmed(h).len() == 0 <==> (r matches Err(Error::PostNoHead(p)) && p@ == path@)
                    &&& (trimmed(h).len() > 0 && trimmed(b).len() == 0) <==> (r matches Err(Error::PostNoBody(p)) && p@ == path@)
                    &&& (trimmed(h).len() > 0 && trimmed(b).len() > 0 && path_file_stem(path@) is None)
                        <==> (r matches Err(Error::PostPathInvalid(p)) && p@ == path@)
                    &&& r matches Err(Error::PostHead(p, _)) ==> p@ == path@
                    &&& r matches Ok(post) ==> {
                        &&& post.root@ == root@
                        &&& post.path@ == path@
                        &&& Some(post.title@) == path_file_stem(path@)
                        &&& post.url@ == seq!['/'] + path_with_extension(path@, html_ext())
                        &&& post.content@ == commonmark_html(math_marked(trimmed(b)))
                    }
                },
            },
            load_result(r, root@, path@, content@),
    {
        let (h, b) = match split_head_body(content) {
            Some(parts) => parts,
            None => {
                return Err(Error::PostOnlyOnePart(path.to_owned()));
            },
        };
        let head = trim_str(h.as_str());
        let body = trim_str(b.as_str());
        if head.as_str().is_empty() {
            return Err(Error::PostNoHead(path.to_owned()));
        }
        if body.as_str().is_empty() {
            return Err(Error::PostNoBody(path.to_owned()));
        }
        let title = match file_stem(path) {
            Some(t) => t,
            None => {
                return Err(Error::PostPathInvalid(path.to_owned()));
            },
        };
        proof {
            reveal_strlit("html");
            assert("html"@ =~= html_ext());
        }
        let mut url = String::new();
        push_char(&mut url, '/');
        url.append(with_extension(path, "html").as_str());
        let mut headers = match parse_head(head.as_str()) {
            Ok(hd) => hd,
            Err(e) => {
                return Err(Error::PostHead(path.to_owned(), e));
            },
        };
        fill_description(&mut headers, body.as_str());
        let content = markdown_to_html(body.as_str());
        Ok(Post { root: root.to_owned(), path: path.to_owned(), title, url, headers, content })
    }

    /// Path of the post's source file.
    pub fn src(&self) -> (r: String)
        ensures
            r@ == path_joined(self.root@, self.path@),
    {
        join_path(self.root.as_str(), self.path.as_str())
    }

    /// Path of the post's page, from the build directory: the post's path
    /// with the extension `html`.
    pub fn dest(&self) -> (r: String)
        ensures
            r@ == path_with_extension(self.path@, html_ext()),
    {
        proof {
            reveal_strlit("html");
            assert("html"@ =~= html_ext());
        }
        with_extension(self.path.as_str(), "html")
    }
}

} // verus!
