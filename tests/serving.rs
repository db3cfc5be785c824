use mdblog::http::{local_path_for_request, HttpServer, HttpService};
use mdblog::settings::Settings;
use mdblog::watch::{is_under_dir, trim_trailing_slashes, Debouncer, Decision, EventKind};
use mdblog::paths::{is_hidden, is_markdown_file};

#[test]
fn request_paths_map_to_files() {
    assert_eq!(local_path_for_request("/srv", "/").unwrap(), "/srv/index.html");
    assert_eq!(local_path_for_request("/srv", "").unwrap(), "/srv/index.html");
    assert_eq!(local_path_for_request("/srv", "/?x=1").unwrap(), "/srv/index.html");
    assert_eq!(local_path_for_request("/srv", "/posts/a.html?x=1").unwrap(), "/srv/posts/a.html");
    assert_eq!(local_path_for_request("/srv", "//a.css").unwrap(), "/srv/a.css");
}

#[test]
fn service_decodes_request_paths() {
    let s = HttpService { root: "/srv".to_string() };
    assert_eq!(s.resolve("/tags/c%2B%2B.html").unwrap(), "/srv/tags/c++.html");
    assert!(s.resolve("/%FF").is_none());
}

#[test]
fn server_keeps_its_address() {
    let s = HttpServer::new("127.0.0.1".to_string(), 5000, "/srv".to_string());
    assert_eq!(s.host, "127.0.0.1");
    assert_eq!(s.port, 5000);
    assert_eq!(s.root_dir, "/srv");
}

#[test]
fn default_settings() {
    let s = Settings::default();
    assert_eq!(s.site_name, "Mdblog");
    assert_eq!(s.build_dir, "_build");
    assert_eq!(s.theme, "simple");
    assert_eq!(s.posts_per_page, 20);
    assert_eq!(s.rebuild_interval, 2);
    assert_eq!(s.rebuild_interval_ms(), 2000);
    assert!(s.is_valid());
}

#[test]
fn site_url_loses_trailing_slashes() {
    let mut s = Settings::default();
    s.site_url = "http://example.com//".to_string();
    s.normalize_site_url();
    assert_eq!(s.site_url, "http://example.com");
    s.posts_per_page = 0;
    assert!(!s.is_valid());
    assert_eq!(trim_trailing_slashes("///"), "");
}

#[test]
fn file_name_rules() {
    assert!(is_hidden(".git"));
    assert!(!is_hidden("posts"));
    assert!(is_markdown_file("hello.md"));
    assert!(!is_markdown_file(".hello.md"));
    assert!(!is_markdown_file("~hello.md"));
    assert!(!is_markdown_file("hello.txt"));
    assert!(!is_markdown_file("md"));
}

#[test]
fn burst_of_changes_rebuilds_once() {
    let mut d = Debouncer::new("/blog/_build", 2000);
    let mut rebuilds = 0;
    for (i, t) in [1000u64, 1100, 1200, 1350, 1500].iter().enumerate() {
        let path = format!("/blog/posts/p{}.md", i);
        if d.on_event(EventKind::Write, &path, *t) == Decision::Rebuild {
            rebuilds += 1;
            d.finish_rebuild();
        }
    }
    assert_eq!(rebuilds, 1);
    assert_eq!(d.on_event(EventKind::Write, "/blog/posts/p.md", 3000), Decision::Rebuild);
}

#[test]
fn output_changes_are_ignored() {
    let mut d = Debouncer::new("/blog/_build/", 2000);
    assert_eq!(d.on_event(EventKind::Create, "/blog/_build/index.html", 0), Decision::Ignore);
    assert_eq!(d.on_event(EventKind::Write, "/blog/posts/.hidden.md", 0), Decision::Ignore);
    assert_eq!(d.on_event(EventKind::Other, "/blog/posts/a.md", 0), Decision::Ignore);
    assert_eq!(d.on_event(EventKind::Remove, "/blog/_buildx/a.md", 0), Decision::Rebuild);
    assert!(is_under_dir("/b/out/x", "/b/out"));
    assert!(!is_under_dir("/b/out", "/b/out"));
}

#[test]
fn changes_during_rebuild_are_dropped() {
    let mut d = Debouncer::new("/blog/_build", 0);
    assert_eq!(d.on_event(EventKind::Write, "/blog/a.md", 10), Decision::Rebuild);
    assert_eq!(d.on_event(EventKind::Write, "/blog/a.md", 5000), Decision::Drop);
    d.finish_rebuild();
    assert_eq!(d.on_event(EventKind::Write, "/blog/a.md", 5000), Decision::Rebuild);
}

#[test]
fn build_dir_pattern() {
    assert_eq!(mdblog::watch::dir_pattern("/b/out//"), "/b/out/**/*");
    assert!(is_under_dir("/b/out/sub/x.html", "/b/out/"));
}
