use mdblog::page::{count_pages, format_page_name, paginate};

#[test]
fn page_names_follow_position() {
    assert_eq!(format_page_name("index", 1, 3), "index.html");
    assert_eq!(format_page_name("index", 2, 3), "index-2.html");
    assert_eq!(format_page_name("index", 3, 3), "index-3.html");
    assert_eq!(format_page_name("rust", 12, 20), "rust-12.html");
}

#[test]
fn page_name_out_of_range_is_empty() {
    assert_eq!(format_page_name("index", 0, 3), "");
    assert_eq!(format_page_name("index", 4, 3), "");
    assert_eq!(format_page_name("index", 1, 0), "");
}

#[test]
fn forty_five_posts_in_pages_of_twenty() {
    let items: Vec<usize> = (0..45).collect();
    assert_eq!(count_pages(45, 20), 3);
    let pages = paginate(&items, "index", 20);
    assert_eq!(pages.len(), 3);
    assert_eq!(pages[0].posts.len(), 20);
    assert_eq!(pages[1].posts.len(), 20);
    assert_eq!(pages[2].posts.len(), 5);
    assert_eq!(pages[0].name, "index.html");
    assert_eq!(pages[1].name, "index-2.html");
    assert_eq!(pages[2].name, "index-3.html");
    assert_eq!(pages[1].prev, "index.html");
    assert_eq!(pages[1].next, "index-3.html");
    assert_eq!(pages[2].next, "");
    assert_eq!(pages[0].prev, "");
    assert_eq!(pages[2].posts, vec![40, 41, 42, 43, 44]);
    assert_eq!(pages[1].index, 2);
}

#[test]
fn no_posts_no_pages() {
    let items: Vec<usize> = Vec::new();
    assert_eq!(count_pages(0, 20), 0);
    assert!(paginate(&items, "index", 20).is_empty());
}

#[test]
fn exact_multiple_fills_every_page() {
    let items: Vec<usize> = (0..40).collect();
    let pages = paginate(&items, "tag", 20);
    assert_eq!(pages.len(), 2);
    assert_eq!(pages[1].posts.len(), 20);
    assert_eq!(pages[1].name, "tag-2.html");
    assert_eq!(pages[1].next, "");
}

#[test]
fn single_post_pages() {
    let items: Vec<usize> = vec![7, 3, 9];
    let pages = paginate(&items, "x", 1);
    assert_eq!(pages.len(), 3);
    assert_eq!(pages[0].posts, vec![7]);
    assert_eq!(pages[2].posts, vec![9]);
    assert_eq!(pages[2].prev, "x-2.html");
}

#[test]
fn largest_page_size() {
    let items: Vec<usize> = (0..5).collect();
    assert_eq!(count_pages(usize::MAX, 1), usize::MAX);
    assert_eq!(count_pages(usize::MAX, usize::MAX), 1);
    let pages = paginate(&items, "index", usize::MAX);
    assert_eq!(pages.len(), 1);
    assert_eq!(pages[0].posts.len(), 5);
}
