//! Rendering Markdown to HTML, done by pulldown_cmark.
use vstd::prelude::*;

verus! {

/// The HTML that pulldown_cmark renders for a Markdown text, with the
/// strikethrough and table extensions enabled. The result depends on
/// the text alone.
pub uninterp spec fn markdown_html(s: Seq<char>) -> Seq<char>;

/// Relies on pulldown_cmark's `Parser::new_ext` and `html::push_html`:
/// rendering is a pure function of the input text and the chosen
/// options, here strikethrough and tables.
#[verifier::external_body]
pub(crate) fn render_markdown(s: &str) -> (r: String)
    ensures
        r@ == markdown_html(s@),
{
    let mut options = pulldown_cmark::Options::empty();
    options.insert(pulldown_cmark::Options::ENABLE_STRIKETHROUGH);
    options.insert(pulldown_cmark::Options::ENABLE_TABLES);
    let parser = pulldown_cmark::Parser::new_ext(s, options);
    let mut out = String::new();
    pulldown_cmark::html::push_html(&mut out, parser);
    out
}

} // verus!
