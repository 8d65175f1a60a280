use vstd::prelude::*;

use pulldown_cmark::{html, Options, Parser};

verus! {

/// What `pulldown_cmark` renders for `markdown` as HTML, with the strikethrough
/// and the tables extensions switched on or off as given.
pub uninterp spec fn commonmark_html(markdown: Seq<char>, strikethrough: bool, tables: bool) -> Seq<char>;

/// Calls `Parser::new_ext` with those two options and `html::push_html` into an
/// empty string; the result is named by `commonmark_html`.
#[verifier::external_body]
fn render_markdown(markdown: &str, strikethrough: bool, tables: bool) -> (r: String)
    ensures
        r@ == commonmark_html(markdown@, strikethrough, tables),
{
    let mut opts = Options::empty();
    opts.set(Options::ENABLE_STRIKETHROUGH, strikethrough);
    opts.set(Options::ENABLE_TABLES, tables);
    let mut output = String::new();
    html::push_html(&mut output, Parser::new_ext(markdown, opts));
    output
}

/// Converts a Markdown string to an HTML string: CommonMark with strikethrough
/// and tables.
pub fn to_html(markdown: &str) -> (r: String)
    ensures
        r@ == commonmark_html(markdown@, true, true),
{
    render_markdown(markdown, true, true)
}

} // verus!
