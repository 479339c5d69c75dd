use vstd::prelude::*;

verus! {

/// The HTML that pulldown-cmark renders from a markdown text.
pub uninterp spec fn markdown_html(md: Seq<char>) -> Seq<char>;

/// The plain text that html2text lays out from an HTML text, 150 columns wide,
/// or `None` where it gives up on it.
pub uninterp spec fn html_plain_text(html: Seq<char>) -> Option<Seq<char>>;

/// Renders a markdown text as HTML.
///
/// Relies on pulldown-cmark's `Parser::new` and `html::push_html`, whose output
/// depends on the markdown text alone.
#[verifier::external_body]
pub fn md_to_html(markdown: &str) -> (r: String)
    ensures
        r@ == markdown_html(markdown@),
{
    let parser = pulldown_cmark::Parser::new(markdown);
    let mut out = String::new();
    pulldown_cmark::html::push_html(&mut out, parser);
    out
}

/// Relies on html2text's `from_read`, reading the HTML from its bytes and wrapping
/// the text at 150 columns; its result depends on the HTML alone.
#[verifier::external_body]
pub(crate) fn plain_text_of(html: &str) -> (r: Option<String>)
    ensures
        match r {
            Some(t) => html_plain_text(html@) == Some(t@),
            None => html_plain_text(html@) is None,
        },
{
    html2text::from_read(html.as_bytes(), 150).ok()
}

} // verus!
