use vstd::prelude::*;

verus! {

/// The document start, up to the page title.
pub const HEAD_OPEN: &'static str = "<!DOCTYPE html><head><meta charset=\"utf-8\"><meta content=\"IE=edge,chrome=1\" http-equiv=\"X-UA-Compatible\"><title>";

/// From the end of the page title to the start of the content.
pub const HEAD_CLOSE: &'static str = "</title><meta content=\"width=device-width\" name=\"viewport\"><link rel=\"icon\" href=\"favicon-min.png\" type=\"image.png\"></head><body><div class=\"container\"><div class=\"site\"><div class=\"header\"><h1 class=\"title\"><a href=\"index.html\">Clark Kampfe</a></h1><a class=\"extra\" href=\"about.html\">about</a> <a class=\"extra\" href=\"resume.html\">resumÃ©</a></div>";

/// From the end of the content to the end of the document.
pub const FOOT: &'static str = "<div class=\"footer\"><div class=\"contact\"><p><a href=\"https://github.com/ckampfe/\">github</a> <a href=\"https://twitter.com/clarkkampfe\">twitter</a> <a href=\"/feed\">rss</a></p></div></div></div></div></body>";

/// The name of the site, the title of its index and of its feed.
pub const SITE_TITLE: &'static str = "Clark Kampfe - zeroclarkthirty.com";

pub open spec fn escape_char(c: char) -> Seq<char> {
    if c == '&' {
        seq!['&', 'a', 'm', 'p', ';']
    } else if c == '<' {
        seq!['&', 'l', 't', ';']
    } else if c == '>' {
        seq!['&', 'g', 't', ';']
    } else if c == '"' {
        seq!['&', 'q', 'u', 'o', 't', ';']
    } else {
        seq![c]
    }
}

/// `s` with `&`, `<`, `>` and `"` replaced by their character entities.
pub open spec fn html_escaped(s: Seq<char>) -> Seq<char>
    decreases s.len(),
{
    if s.len() == 0 {
        seq![]
    } else {
        html_escaped(s.drop_last()) + escape_char(s.last())
    }
}

/// The texts of `s` one after another.
pub open spec fn concat_all(s: Seq<Seq<char>>) -> Seq<char>
    decreases s.len(),
{
    if s.len() == 0 {
        seq![]
    } else {
        concat_all(s.drop_last()) + s.last()
    }
}

/// The site's frame around a document's content.
pub open spec fn layout_html(title: Seq<char>, content: Seq<char>) -> Seq<char> {
    HEAD_OPEN@ + html_escaped(title) + HEAD_CLOSE@ + content + FOOT@
}

pub open spec fn page_html(title: Seq<char>, content: Seq<char>) -> Seq<char> {
    layout_html(
        title,
        "<div><h1>"@ + html_escaped(title) + "</h1><div class=\"page\">"@ + content
            + "</div></div>"@,
    )
}

pub open spec fn post_html(title: Seq<char>, created: Seq<char>, content: Seq<char>) -> Seq<char> {
    layout_html(
        title,
        "<div><h2>"@ + title + "</h2><p class=\"meta\">"@ + html_escaped(created)
            + "</p><div class=\"post\">"@ + content + "</div></div>"@,
    )
}

pub open spec fn index_link_html(filename: Seq<char>, title: Seq<char>, created: Seq<char>) -> Seq<
    char,
> {
    "<li><a href=\""@ + html_escaped(filename) + "\">"@ + title + "</a> <span>"@ + html_escaped(
        created,
    ) + "</span></li>"@
}

pub open spec fn index_html(links: Seq<Seq<char>>) -> Seq<char> {
    layout_html(
        SITE_TITLE@,
        "<div id=\"home\"><ul class=\"posts\">"@ + concat_all(links) + "</ul></div>"@,
    )
}

/// Relies on maud's `Render` for `str`, which writes the text with `&`, `<`,
/// `>` and `"` replaced by `&amp;`, `&lt;`, `&gt;` and `&quot;`, and every other
/// character as it is.
#[verifier::external_body]
fn escape(s: &str) -> (r: String)
    ensures
        r@ == html_escaped(s@),
{
    let mut out = String::new();
    maud::Render::render_to(s, &mut out);
    out
}

/// The site's frame around a document's content; the title is escaped.
pub fn layout(title: &str, content: &str) -> (r: String)
    ensures
        r@ == layout_html(title@, content@),
{
    let mut out = String::from_str(HEAD_OPEN);
    out.append(escape(title).as_str());
    out.append(HEAD_CLOSE);
    out.append(content);
    out.append(FOOT);
    out
}

/// A standalone page: its escaped title over its rendered body.
pub fn page(title: &str, content: &str) -> (r: String)
    ensures
        r@ == page_html(title@, content@),
{
    let mut inner = String::from_str("<div><h1>");
    inner.append(escape(title).as_str());
    inner.append("</h1><div class=\"page\">");
    inner.append(content);
    inner.append("</div></div>");
    layout(title, inner.as_str())
}

/// A post: its title as written, its escaped day and its rendered body.
pub fn post(title: &str, created: &str, content: &str) -> (r: String)
    ensures
        r@ == post_html(title@, created@, content@),
{
    let mut inner = String::from_str("<div><h2>");
    inner.append(title);
    inner.append("</h2><p class=\"meta\">");
    inner.append(escape(created).as_str());
    inner.append("</p><div class=\"post\">");
    inner.append(content);
    inner.append("</div></div>");
    layout(title, inner.as_str())
}

/// One entry of the index: a link to the post's file and its day.
pub fn index_link(filename: &str, title: &str, created_at: &str) -> (r: String)
    ensures
        r@ == index_link_html(filename@, title@, created_at@),
{
    let mut out = String::from_str("<li><a href=\"");
    out.append(escape(filename).as_str());
    out.append("\">");
    out.append(title);
    out.append("</a> <span>");
    out.append(escape(created_at).as_str());
    out.append("</span></li>");
    out
}

/// The index page, listing the given entries in their order.
pub fn index(post_links: &Vec<String>) -> (r: String)
    ensures
        r@ == index_html(post_links@.map_values(|l: String| l@)),
{
    let ghost links = post_links@.map_values(|l: String| l@);
    let mut list = String::from_str("<div id=\"home\"><ul class=\"posts\">");
    let ghost start = list@;
    let mut i: usize = 0;
    while i < post_links.len()
        invariant
            0 <= i <= post_links.len(),
            links == post_links@.map_values(|l: String| l@),
            list@ == start + concat_all(links.take(i as int)),
        decreases post_links.len() - i,
    {
        assert(links.take(i + 1).drop_last() =~= links.take(i as int));
        list.append(post_links[i].as_str());
        i = i + 1;
    }
    assert(links.take(i as int) =~= links);
    list.append("</ul></div>");
    layout(SITE_TITLE, list.as_str())
}

} // verus!
