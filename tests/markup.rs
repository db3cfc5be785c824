use mdblog::markup::{markdown_to_html, replace_delimiters, split};

#[test]
fn split_without_escapes() {
    assert_eq!(split("a$b$c", "$", false), vec!["a", "b", "c"]);
    assert_eq!(split("a\\$b", "$", false), vec!["a\\", "b"]);
    assert_eq!(split("", "$", false), vec![""]);
}

#[test]
fn split_with_escapes() {
    assert_eq!(split("a\\$b$c", "$", true), vec!["a$b", "c"]);
    assert_eq!(split("x\\$y\\$z", "$", true), vec!["x$y$z"]);
    assert_eq!(split("end\\", "$", true), vec!["end\\"]);
}

#[test]
fn inline_math_is_marked() {
    assert_eq!(
        replace_delimiters("x $a+b$ y", "$", true),
        "x <language-inline-math>a+b</language-inline-math> y"
    );
}

#[test]
fn display_math_is_marked() {
    assert_eq!(
        replace_delimiters("$$e=mc^2$$", "$$", false),
        "<language-math>e=mc^2</language-math>"
    );
}

#[test]
fn unclosed_math_keeps_text() {
    assert_eq!(replace_delimiters("a $b", "$", true), "a <language-inline-math>b</language-inline-math>");
    assert_eq!(replace_delimiters("cost \\$5", "$", true), "cost $5");
}

#[test]
fn markdown_renders_html() {
    assert_eq!(markdown_to_html("# Title"), "<h1>Title</h1>\n");
    assert_eq!(markdown_to_html("~~gone~~"), "<p><del>gone</del></p>\n");
    assert!(markdown_to_html("$x$").contains("language-inline-math"));
}
