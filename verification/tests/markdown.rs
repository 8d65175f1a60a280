use matrix_webhook::markdown::to_html;

#[test]
fn empty_input() {
    assert_eq!(to_html(""), "");
}

#[test]
fn plain_text() {
    assert_eq!(to_html("hello"), "<p>hello</p>\n");
}

#[test]
fn heading() {
    assert_eq!(to_html("## Title"), "<h2>Title</h2>\n");
}

#[test]
fn bold() {
    assert!(to_html("**bold**").contains("<strong>bold</strong>"));
}

#[test]
fn strikethrough_enabled() {
    assert!(to_html("~~gone~~").contains("<del>gone</del>"));
}

#[test]
fn tables_enabled() {
    let html = to_html("| a | b |\n|---|---|\n| 1 | 2 |\n");
    assert!(html.contains("<table>"));
}

#[test]
fn link() {
    assert!(to_html("[label](https://example.com)").contains("<a href=\"https://example.com\">label</a>"));
}
