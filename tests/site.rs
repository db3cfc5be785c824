use mdblog::blog::{get_dir, load_posts, Mdblog, SourceFile};
use mdblog::context::{post_tags, tags_display_order};
use mdblog::post::Post;
use mdblog::site::{build_site, sort_posts, visible_posts};
use mdblog::tag::{build_tags, Tag};

fn post(path: &str, created: &str, tags: &[&str], hidden: bool) -> Post {
    let content = format!(
        "created: {}\nhidden: {}\ntags: [{}]\n\nbody of {}\n",
        created,
        hidden,
        tags.join(", "),
        path
    );
    Post::new("/blog", path, &content).ok().unwrap()
}

fn paths(posts: &[Post]) -> Vec<String> {
    posts.iter().map(|p| p.path.clone()).collect()
}

#[test]
fn posts_sorted_newest_first_and_stable() {
    let mut posts = vec![
        post("posts/a.md", "2020-01-01T00:00:00Z", &[], false),
        post("posts/b.md", "2021-01-01T00:00:00Z", &[], false),
        post("posts/c.md", "2020-01-01T00:00:00Z", &[], false),
        post("posts/d.md", "2019-06-01T00:00:00+02:00", &[], false),
        post("posts/e.md", "2021-01-01T01:00:00+01:00", &[], false),
    ];
    sort_posts(&mut posts);
    assert_eq!(paths(&posts), vec!["posts/b.md", "posts/e.md", "posts/a.md", "posts/c.md", "posts/d.md"]);
    for i in 0..posts.len() {
        for j in i + 1..posts.len() {
            assert!(posts[i].headers.created.is_not_before(&posts[j].headers.created));
        }
    }
}

#[test]
fn tag_index_holds_visible_posts_only() {
    let posts = vec![
        post("posts/a.md", "2021-03-01T00:00:00Z", &["rust", "web"], false),
        post("posts/b.md", "2021-02-01T00:00:00Z", &["rust"], true),
        post("posts/c.md", "2021-01-01T00:00:00Z", &["Rust", "rust"], false),
        post("posts/d.md", "2020-01-01T00:00:00Z", &["secret"], true),
    ];
    let tags = build_tags(&posts);
    let names: Vec<&str> = tags.iter().map(|t| t.name.as_str()).collect();
    assert_eq!(names, vec!["rust", "web", "Rust"]);
    assert_eq!(tags[0].posts, vec![0, 2]);
    assert_eq!(tags[0].num, 2);
    assert_eq!(tags[1].posts, vec![0]);
    assert_eq!(tags[2].posts, vec![2]);
    for t in &tags {
        assert!(t.num >= 1);
        for &p in &t.posts {
            assert!(!posts[p].headers.hidden);
            assert!(posts[p].headers.tags.contains(&t.name));
        }
    }
}

#[test]
fn tag_new_and_add() {
    let mut t = Tag::new("rust");
    assert_eq!(t.num, 0);
    t.add(4);
    t.add(9);
    assert_eq!(t.num, 2);
    assert_eq!(t.posts, vec![4, 9]);
}

#[test]
fn site_model_pages_visible_posts() {
    let mut posts = Vec::new();
    for i in 0..45 {
        posts.push(post(&format!("posts/p{}.md", i), &format!("2020-01-01T00:00:{:02}Z", i), &["all"], false));
    }
    posts.push(post("posts/hidden.md", "2030-01-01T00:00:00Z", &["all"], true));
    let model = build_site(posts, 20);
    assert_eq!(model.posts.len(), 46);
    assert_eq!(model.posts[0].path, "posts/hidden.md");
    assert_eq!(model.posts[1].path, "posts/p44.md");
    assert_eq!(visible_posts(&model.posts).len(), 45);
    assert_eq!(model.index_pages.len(), 3);
    assert_eq!(model.index_pages[0].posts[0], 1);
    assert_eq!(model.index_pages[2].posts.len(), 5);
    assert_eq!(model.tags.len(), 1);
    assert_eq!(model.tag_pages[0].len(), 3);
    assert_eq!(model.tag_pages[0][1].name, "all-2.html");
}

#[test]
fn empty_site_has_no_pages() {
    let model = build_site(Vec::new(), 20);
    assert!(model.posts.is_empty());
    assert!(model.tags.is_empty());
    assert!(model.index_pages.is_empty());
}

#[test]
fn build_twice_gives_same_model() {
    let make = || {
        vec![
            post("posts/a.md", "2020-01-01T00:00:00Z", &["x", "y"], false),
            post("posts/b.md", "2020-01-01T00:00:00Z", &["y"], false),
            post("posts/c.md", "2022-01-01T00:00:00Z", &["x"], false),
        ]
    };
    let m1 = build_site(make(), 1);
    let m2 = build_site(make(), 1);
    assert_eq!(paths(&m1.posts), paths(&m2.posts));
    let names = |m: &mdblog::site::SiteModel| m.tags.iter().map(|t| (t.name.clone(), t.posts.clone())).collect::<Vec<_>>();
    assert_eq!(names(&m1), names(&m2));
    let pages = |m: &mdblog::site::SiteModel| m.index_pages.iter().map(|p| (p.name.clone(), p.prev.clone(), p.next.clone(), p.posts.clone())).collect::<Vec<_>>();
    assert_eq!(pages(&m1), pages(&m2));
}

#[test]
fn tags_in_display_order_ignore_case() {
    let tags = vec![Tag::new("beta"), Tag::new("Alpha"), Tag::new("gamma"), Tag::new("ALPHA"), Tag::new("Beta")];
    assert_eq!(tags_display_order(&tags), vec![1, 3, 0, 4, 2]);
    assert!(tags_display_order(&Vec::new()).is_empty());
}

#[test]
fn tags_of_a_post() {
    let tags = vec![Tag::new("a"), Tag::new("b"), Tag::new("c")];
    let p = post("posts/x.md", "2020-01-01T00:00:00Z", &["c", "a", "z"], false);
    assert_eq!(post_tags(&tags, &p), vec![0, 2]);
}

#[test]
fn loading_stops_at_first_bad_file() {
    let files = vec![
        SourceFile { path: "posts/a.md".into(), content: "created: 2020-01-01T00:00:00Z\n\nbody".into() },
        SourceFile { path: "posts/b.md".into(), content: "no head".into() },
    ];
    assert!(load_posts("/blog", &files).is_err());
    let mut files = files;
    files.pop();
    let ok = load_posts("/blog", &files).ok().unwrap();
    assert_eq!(ok.len(), 1);
}

#[test]
fn failed_build_keeps_previous_model() {
    let mut blog = Mdblog::new("/blog");
    let good = vec![SourceFile { path: "posts/a.md".into(), content: "created: 2020-01-01T00:00:00Z\ntags: [t]\n\nbody".into() }];
    assert!(blog.build(&good).is_ok());
    assert_eq!(blog.model.posts.len(), 1);
    assert_eq!(blog.tags().len(), 1);
    assert_eq!(blog.index_pages().len(), 1);
    let bad = vec![SourceFile { path: "posts/b.md".into(), content: "x".into() }];
    assert!(blog.build(&bad).is_err());
    assert_eq!(blog.model.posts.len(), 1);
    assert_eq!(blog.model.posts[0].path, "posts/a.md");
    assert_eq!(blog.post_root_dir(), "/blog/posts");
}

#[test]
fn directories_from_settings() {
    assert_eq!(get_dir("/blog", "_build"), "/blog/_build");
    assert_eq!(get_dir("/blog", "/tmp/out"), "/tmp/out");
}
