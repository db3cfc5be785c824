use mdblog::error::Error;
use mdblog::head::{parse_created, HeadError};
use mdblog::post::{split_head_body, summarize, Post};

fn load(path: &str, content: &str) -> Result<Post, Error> {
    Post::new("/blog", path, content)
}

#[test]
fn post_title_dest_and_url() {
    let content = "created: 2017-05-05T15:00:00+08:00\ntags: [hello, world]\n\nthis is a *post*!\n";
    let post = load("posts/hello.md", content).ok().unwrap();
    assert_eq!(post.title, "hello");
    assert_eq!(post.dest(), "posts/hello.html");
    assert_eq!(post.url, "/posts/hello.html");
    assert_eq!(post.src(), "/blog/posts/hello.md");
    assert_eq!(post.headers.tags, vec!["hello".to_string(), "world".to_string()]);
    assert!(!post.headers.hidden);
    assert_eq!(post.headers.description, "this is a *post*!...");
    assert!(post.content.contains("<em>post</em>"));
}

#[test]
fn post_in_subdirectory() {
    let content = "created: 2020-01-01T00:00:00Z\nhidden: true\ndescription: mine\n\nbody\n";
    let post = load("posts/rust/intro.md", content).ok().unwrap();
    assert_eq!(post.title, "intro");
    assert_eq!(post.dest(), "posts/rust/intro.html");
    assert!(post.headers.hidden);
    assert_eq!(post.headers.description, "mine");
    assert_eq!(post.headers.created.secs, 1577836800);
}

#[test]
fn no_blank_line_is_one_part() {
    let r = load("posts/a.md", "created: 2020-01-01T00:00:00Z\nbody");
    assert!(matches!(r, Err(Error::PostOnlyOnePart(p)) if p == "posts/a.md"));
}

#[test]
fn empty_head_is_refused() {
    let r = load("posts/a.md", "  \n\nbody text");
    assert!(matches!(r, Err(Error::PostNoHead(p)) if p == "posts/a.md"));
}

#[test]
fn empty_body_is_refused() {
    let r = load("posts/a.md", "created: 2020-01-01T00:00:00Z\n\n \n\n\t");
    assert!(matches!(r, Err(Error::PostNoBody(p)) if p == "posts/a.md"));
}

#[test]
fn missing_created_is_refused() {
    let r = load("posts/a.md", "tags: [a]\n\nbody");
    assert!(matches!(r, Err(Error::PostHead(_, HeadError::MissingCreated))));
}

#[test]
fn malformed_created_is_refused() {
    let r = load("posts/a.md", "created: yesterday\n\nbody");
    assert!(matches!(r, Err(Error::PostHead(_, HeadError::BadCreated))));
}

#[test]
fn wrong_kind_of_field_is_refused() {
    let r = load("posts/a.md", "created: 2020-01-01T00:00:00Z\nhidden: [1]\n\nbody");
    assert!(matches!(r, Err(Error::PostHead(_, HeadError::BadField(f))) if f == "hidden"));
    let r = load("posts/a.md", "created: 2020-01-01T00:00:00Z\ntags: 3\n\nbody");
    assert!(matches!(r, Err(Error::PostHead(_, HeadError::BadField(f))) if f == "tags"));
}

#[test]
fn bad_yaml_is_refused() {
    let r = load("posts/a.md", "created: [unclosed\n\nbody");
    assert!(matches!(r, Err(Error::PostHead(_, HeadError::Yaml(_)))));
}

#[test]
fn split_keeps_later_blank_lines_in_body() {
    let (h, b) = split_head_body("a: 1\n\npara one\n\npara two").unwrap();
    assert_eq!(h, "a: 1");
    assert_eq!(b, "para one\n\npara two");
    assert!(split_head_body("no boundary\nhere").is_none());
    let (h, b) = split_head_body("\n\n").unwrap();
    assert_eq!(h, "");
    assert_eq!(b, "");
}

#[test]
fn summary_takes_first_paragraph_words() {
    assert_eq!(summarize("one  two\tthree\n\nfour"), "one two three...");
    assert_eq!(summarize(""), "");
    let long: Vec<String> = (0..150).map(|i| format!("w{}", i)).collect();
    let s = summarize(&long.join(" "));
    assert_eq!(s, format!("{}...", long[..100].join(" ")));
}

#[test]
fn created_times_read_with_offset() {
    let t = parse_created("2017-05-05T15:00:00+08:00").unwrap();
    assert_eq!(t.secs, 1493967600);
    assert_eq!(t.nanos, 0);
    assert_eq!(t.offset_secs, 8 * 3600);
    let u = parse_created("2017-05-05T07:00:00.5Z").unwrap();
    assert_eq!(u.secs, 1493967600);
    assert_eq!(u.nanos, 500_000_000);
    assert!(u.is_not_before(&t));
    assert!(!t.is_not_before(&u));
    assert!(parse_created("2017-05-05").is_none());
}

#[test]
fn tags_must_all_be_strings() {
    let r = load("posts/a.md", "created: 2020-01-01T00:00:00Z\ntags: [rust, [nested]]\n\nbody");
    assert!(matches!(r, Err(Error::PostHead(_, HeadError::BadField(f))) if f == "tags"));
    let r = load("posts/a.md", "created: 2020-01-01T00:00:00Z\ndescription: [x]\n\nbody");
    assert!(matches!(r, Err(Error::PostHead(_, HeadError::BadField(f))) if f == "description"));
    let p = load("posts/a.md", "created: 2020-01-01T00:00:00Z\ntags:\nhidden:\n\nbody").ok().unwrap();
    assert!(p.headers.tags.is_empty());
    assert!(!p.headers.hidden);
}

#[test]
fn head_with_trailing_newline_before_blank_line() {
    let p = load("posts/a.md", "created: 2020-01-01T00:00:00Z\n\n\nbody").ok().unwrap();
    assert_eq!(p.headers.description, "body...");
}
