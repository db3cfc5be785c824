use mdblog::blog::{check_new_post_path, feed_posts, new_post_content, Mdblog};
use mdblog::post::Post;

fn post(path: &str, created: &str, hidden: bool) -> Post {
    let content = format!("created: {}\nhidden: {}\n\nbody\n", created, hidden);
    Post::new("/blog", path, &content).ok().unwrap()
}

#[test]
fn feed_takes_newest_visible_posts() {
    let posts = vec![
        post("posts/a.md", "2022-01-01T00:00:00Z", false),
        post("posts/b.md", "2021-01-01T00:00:00Z", true),
        post("posts/c.md", "2020-01-01T00:00:00Z", false),
        post("posts/d.md", "2019-01-01T00:00:00Z", false),
    ];
    assert_eq!(feed_posts(&posts, 2), vec![0, 2]);
    assert_eq!(feed_posts(&posts, 10), vec![0, 2, 3]);
    assert!(feed_posts(&posts, 0).is_empty());
}

#[test]
fn new_post_paths() {
    assert!(check_new_post_path("hello", "_build"));
    assert!(check_new_post_path("rust/intro", "_build"));
    assert!(!check_new_post_path("", "_build"));
    assert!(!check_new_post_path("/abs/post", "_build"));
    assert!(!check_new_post_path("hello.md", "_build"));
    assert!(!check_new_post_path("drafts/.secret", "_build"));
    assert!(!check_new_post_path("_build/page", "_build"));
}

#[test]
fn new_post_text() {
    let tags = vec!["rust".to_string(), "web".to_string()];
    assert_eq!(
        new_post_content("2020-01-01T00:00:00+00:00", &tags),
        "created: 2020-01-01T00:00:00+00:00\ntags: [rust, web]\n\nthis is a new post!\n"
    );
    assert_eq!(new_post_content("t", &Vec::new()), "created: t\ntags: []\n\nthis is a new post!\n");
    let loaded = Post::new("/blog", "posts/n.md", &new_post_content("2020-01-01T00:00:00+00:00", &tags));
    assert!(loaded.is_ok());
}

#[test]
fn new_post_file_path() {
    let blog = Mdblog::new("/blog");
    assert_eq!(blog.new_post_file("rust/intro"), "/blog/posts/rust/intro.md");
}
