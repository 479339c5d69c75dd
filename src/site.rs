use vstd::prelude::*;

use crate::date::{is_later, Date};
use crate::document::{page_fields, parse_page, parse_post, post_fields, DocField, ParseError, Post};
use crate::feed::{rss_feed, rss_item, rss_xml, rfc2822_midnight_utc, FeedItem, SITE_DESCRIPTION, SITE_URL};
use crate::html::{index, index_html, index_link, index_link_html, page, page_html, post, post_html, SITE_TITLE};
use crate::markup::{html_plain_text, markdown_html, md_to_html, plain_text_of};
use crate::ordering::{index_order, index_order_prefix, is_index_order};
use crate::store::{apply_writes, lemma_writes_idempotent, IndexRecord, IndexWrite, StoreState};

verus! {

/// A document source: its file name without the extension, and its text.
#[derive(Debug)]
pub struct Source {
    pub stem: String,
    pub text: String,
}

/// A file of the built site: its name in the output directory and its contents.
#[derive(Debug)]
pub struct OutputFile {
    pub name: String,
    pub content: String,
}

impl View for OutputFile {
    type V = (Seq<char>, Seq<char>);

    open spec fn view(&self) -> (Seq<char>, Seq<char>) {
        (self.name@, self.content@)
    }
}

/// What one post adds to the site.
#[derive(Debug)]
pub struct RenderedPost {
    pub file: OutputFile,
    pub index_entry: String,
    pub item: FeedItem,
    pub write: IndexWrite,
}

/// Everything a build produces: the post and page files, the index page, the feed
/// and the writes for the search index, in the order they are to be made.
#[derive(Debug)]
pub struct Site {
    pub files: Vec<OutputFile>,
    pub index: String,
    pub feed: String,
    pub writes: Vec<IndexWrite>,
}

/// Why a build stopped.
#[derive(Clone, Copy, Debug, PartialEq, Eq, Structural)]
pub enum BuildError {
    /// The post source at this position does not match the grammar.
    MalformedPost { index: usize, field: DocField },
    /// The plain text of the post source at this position could not be made.
    PlainText { index: usize },
    /// The page source at this position does not match the grammar.
    MalformedPage { index: usize, field: DocField },
}

pub open spec fn html_name(stem: Seq<char>) -> Seq<char> {
    stem + ".html"@
}

pub open spec fn post_url(stem: Seq<char>) -> Seq<char> {
    SITE_URL@ + "/"@ + html_name(stem)
}

pub open spec fn post_file_of(stem: Seq<char>, p: (Seq<char>, Date, Seq<char>)) -> (Seq<char>, Seq<char>) {
    (html_name(stem), post_html(p.0, p.1.text(), markdown_html(p.2)))
}

pub open spec fn index_entry_of(stem: Seq<char>, p: (Seq<char>, Date, Seq<char>)) -> Seq<char> {
    index_link_html(html_name(stem), p.0, p.1.text())
}

pub open spec fn feed_item_of(stem: Seq<char>, p: (Seq<char>, Date, Seq<char>)) -> (Seq<char>, Seq<char>, Seq<char>, Seq<char>) {
    (p.0, post_url(stem), markdown_html(p.2), rfc2822_midnight_utc(p.1.year as int, p.1.month as int, p.1.day as int))
}

pub open spec fn post_record_of(p: (Seq<char>, Date, Seq<char>)) -> IndexRecord {
    IndexRecord::Post { title: p.0, text: html_plain_text(markdown_html(p.2))->0, created_on: p.1.text() }
}

pub open spec fn page_file_of(stem: Seq<char>, p: (Seq<char>, Seq<char>)) -> (Seq<char>, Seq<char>) {
    (html_name(stem), page_html(p.0, markdown_html(p.1)))
}

pub open spec fn page_record_of(p: (Seq<char>, Seq<char>)) -> IndexRecord {
    IndexRecord::Page { title: p.0, html: markdown_html(p.1) }
}

/// Every post source parses.
pub open spec fn posts_parse(posts: Seq<Source>) -> bool {
    forall|i: int| 0 <= i < posts.len() ==> post_fields(#[trigger] posts[i].text@) is Ok
}

/// Every page source parses.
pub open spec fn pages_parse(pages: Seq<Source>) -> bool {
    forall|i: int| 0 <= i < pages.len() ==> page_fields(#[trigger] pages[i].text@) is Ok
}

pub open spec fn post_of(posts: Seq<Source>, i: int) -> (Seq<char>, Date, Seq<char>) {
    post_fields(posts[i].text@)->Ok_0
}

pub open spec fn page_of(pages: Seq<Source>, i: int) -> (Seq<char>, Seq<char>) {
    page_fields(pages[i].text@)->Ok_0
}

/// The days of the parsed posts, in the order the sources were found.
pub open spec fn days_of(posts: Seq<Source>) -> Seq<Date> {
    Seq::new(posts.len(), |i: int| post_of(posts, i).1)
}

/// The positions of the posts in the order of the index.
pub open spec fn post_order(posts: Seq<Source>) -> Seq<usize> {
    index_order_prefix(days_of(posts), posts.len())
}

/// The plain text of every post can be made.
pub open spec fn plain_texts_made(posts: Seq<Source>) -> bool {
    forall|i: int| 0 <= i < posts.len() ==> (#[trigger] html_plain_text(markdown_html(post_of(posts, i).2))) is Some
}

pub open spec fn ordered_files(posts: Seq<Source>) -> Seq<(Seq<char>, Seq<char>)> {
    Seq::new(posts.len(), |k: int| post_file_of(posts[post_order(posts)[k] as int].stem@, post_of(posts, post_order(posts)[k] as int)))
}

pub open spec fn ordered_entries(posts: Seq<Source>) -> Seq<Seq<char>> {
    Seq::new(posts.len(), |k: int| index_entry_of(posts[post_order(posts)[k] as int].stem@, post_of(posts, post_order(posts)[k] as int)))
}

pub open spec fn ordered_items(posts: Seq<Source>) -> Seq<(Seq<char>, Seq<char>, Seq<char>, Seq<char>)> {
    Seq::new(posts.len(), |k: int| feed_item_of(posts[post_order(posts)[k] as int].stem@, post_of(posts, post_order(posts)[k] as int)))
}

pub open spec fn ordered_records(posts: Seq<Source>) -> Seq<IndexRecord> {
    Seq::new(posts.len(), |k: int| post_record_of(post_of(posts, post_order(posts)[k] as int)))
}

pub open spec fn page_files(pages: Seq<Source>) -> Seq<(Seq<char>, Seq<char>)> {
    Seq::new(pages.len(), |i: int| page_file_of(pages[i].stem@, page_of(pages, i)))
}

pub open spec fn page_records(pages: Seq<Source>) -> Seq<IndexRecord> {
    Seq::new(pages.len(), |i: int| page_record_of(page_of(pages, i)))
}

/// A site's files, index page, feed and index writes.
pub open spec fn site_view(s: Site) -> (Seq<(Seq<char>, Seq<char>)>, Seq<char>, Seq<char>, Seq<IndexRecord>) {
    (s.files@.map_values(|f: OutputFile| f@), s.index@, s.feed@, s.writes@.map_values(|w: IndexWrite| w@))
}

/// The site built from sources that all parse: posts in the index order, then
/// pages in the order they were found.
pub open spec fn built_site(posts: Seq<Source>, pages: Seq<Source>) -> (Seq<(Seq<char>, Seq<char>)>, Seq<char>, Seq<char>, Seq<IndexRecord>) {
    (
        ordered_files(posts) + page_files(pages),
        index_html(ordered_entries(posts)),
        rss_xml(SITE_TITLE@, SITE_URL@, SITE_DESCRIPTION@, ordered_items(posts)),
        ordered_records(posts) + page_records(pages),
    )
}

/// The name of a document's output file.
pub fn html_file_name(stem: &str) -> (r: String)
    ensures
        r@ == html_name(stem@),
{
    let mut name = String::from_str(stem);
    name.append(".html");
    name
}

/// What one post adds to the site: its file, its index entry, its feed entry and
/// its index write; `None` where its plain text cannot be made.
pub fn render_post(stem: &str, p: &Post) -> (r: Option<RenderedPost>)
    requires
        p.created_on.wf(),
    ensures
        r is None <==> html_plain_text(markdown_html(p.body@)) is None,
        r matches Some(rp) ==> {
            &&& rp.file@ == post_file_of(stem@, p@)
            &&& rp.index_entry@ == index_entry_of(stem@, p@)
            &&& rp.item@ == feed_item_of(stem@, p@)
            &&& rp.write@ == post_record_of(p@)
        },
{
    let body_html = md_to_html(p.body.as_str());
    let text = match plain_text_of(body_html.as_str()) {
        Some(t) => t,
        None => {
            return None;
        },
    };
    let created = p.created_on.to_text();
    let name = html_file_name(stem);
    let content = post(p.title.as_str(), created.as_str(), body_html.as_str());
    let link = index_link(name.as_str(), p.title.as_str(), created.as_str());
    let mut url = String::from_str(SITE_URL);
    url.append("/");
    url.append(name.as_str());
    let item = rss_item(p.title.as_str(), p.created_on, body_html.as_str(), url.as_str());
    let write = IndexWrite::Post { title: p.title.clone(), text, created_on: created };
    Some(RenderedPost { file: OutputFile { name, content }, index_entry: link, item, write })
}

/// Parses every post source, stopping at the first that does not match.
fn parse_posts(posts: &Vec<Source>) -> (r: Result<Vec<Post>, BuildError>)
    ensures
        match r {
            Ok(parsed) => posts_parse(posts@) && parsed.len() == posts.len() && forall|i: int|
                0 <= i < posts.len() ==> #[trigger] parsed@[i]@ == post_of(posts@, i)
                    && parsed@[i].created_on.wf(),
            Err(BuildError::MalformedPost { index, field }) => index < posts.len()
                && post_fields(posts@[index as int].text@) == Err::<(Seq<char>, Date, Seq<char>), DocField>(field)
                && forall|j: int| 0 <= j < index ==> post_fields(#[trigger] posts@[j].text@) is Ok,
            Err(_) => false,
        },
{
    let mut parsed: Vec<Post> = Vec::new();
    let mut i: usize = 0;
    while i < posts.len()
        invariant
            0 <= i <= posts.len(),
            parsed.len() == i,
            forall|j: int| 0 <= j < i ==> post_fields(#[trigger] posts@[j].text@) is Ok,
            forall|j: int|
                0 <= j < i ==> #[trigger] parsed@[j]@ == post_of(posts@, j) && parsed@[j].created_on.wf(),
        decreases posts.len() - i,
    {
        match parse_post(posts[i].text.as_str()) {
            Ok(p) => {
                parsed.push(p);
            },
            Err(ParseError::MalformedDocument(field)) => {
                return Err(BuildError::MalformedPost { index: i, field });
            },
        }
        i = i + 1;
    }
    Ok(parsed)
}

/// Renders the posts in the index order; stops at the first whose plain text
/// cannot be made.
fn render_posts(posts: &Vec<Source>, parsed: &Vec<Post>) -> (r: Result<(Vec<OutputFile>, Vec<String>, Vec<FeedItem>, Vec<IndexWrite>), BuildError>)
    requires
        posts_parse(posts@),
        parsed.len() == posts.len(),
        forall|i: int| 0 <= i < posts.len() ==> #[trigger] parsed@[i]@ == post_of(posts@, i) && parsed@[i].created_on.wf(),
    ensures
        match r {
            Ok((files, links, items, writes)) => {
                &&& plain_texts_made(posts@)
                &&& files@.map_values(|f: OutputFile| f@) == ordered_files(posts@)
                &&& links@.map_values(|l: String| l@) == ordered_entries(posts@)
                &&& items@.map_values(|i: FeedItem| i@) == ordered_items(posts@)
                &&& writes@.map_values(|w: IndexWrite| w@) == ordered_records(posts@)
            },
            Err(BuildError::PlainText { index }) => exists|k: int|
                0 <= k < posts.len() && post_order(posts@)[k] == index
                && html_plain_text(markdown_html(post_of(posts@, index as int).2)) is None
                && forall|j: int| 0 <= j < k ==> (#[trigger] html_plain_text(markdown_html(post_of(posts@, post_order(posts@)[j] as int).2))) is Some,
            Err(_) => false,
        },
{
    let mut days: Vec<Date> = Vec::new();
    let mut i: usize = 0;
    while i < parsed.len()
        invariant
            0 <= i <= parsed.len(),
            parsed.len() == posts.len(),
            days.len() == i,
            forall|j: int| 0 <= j < i ==> days@[j] == #[trigger] parsed@[j].created_on,
        decreases parsed.len() - i,
    {
        days.push(parsed[i].created_on);
        i = i + 1;
    }
    assert(days@ =~= days_of(posts@)) by {
        assert forall|j: int| 0 <= j < days.len() implies days@[j] == days_of(posts@)[j] by {
            assert(parsed@[j]@ == post_of(posts@, j));
        }
    }
    let order = index_order(&days);
    let ghost ord = post_order(posts@);
    let mut files: Vec<OutputFile> = Vec::new();
    let mut links: Vec<String> = Vec::new();
    let mut items: Vec<FeedItem> = Vec::new();
    let mut writes: Vec<IndexWrite> = Vec::new();
    let mut k: usize = 0;
    while k < order.len()
        invariant
            0 <= k <= order.len(),
            order@ == ord,
            ord == post_order(posts@),
            order.len() == posts.len(),
            parsed.len() == posts.len(),
            forall|j: int| 0 <= j < order.len() ==> order@[j] < posts.len(),
            forall|j: int| 0 <= j < posts.len() ==> #[trigger] parsed@[j]@ == post_of(posts@, j) && parsed@[j].created_on.wf(),
            files.len() == k,
            links.len() == k,
            items.len() == k,
            writes.len() == k,
            forall|j: int| 0 <= j < k ==> (#[trigger] html_plain_text(markdown_html(post_of(posts@, ord[j] as int).2))) is Some,
            forall|j: int| 0 <= j < k ==> #[trigger] files@[j]@ == ordered_files(posts@)[j],
            forall|j: int| 0 <= j < k ==> #[trigger] links@[j]@ == ordered_entries(posts@)[j],
            forall|j: int| 0 <= j < k ==> #[trigger] items@[j]@ == ordered_items(posts@)[j],
            forall|j: int| 0 <= j < k ==> #[trigger] writes@[j]@ == ordered_records(posts@)[j],
        decreases order.len() - k,
    {
        let i = order[k];
        assert(parsed@[i as int]@ == post_of(posts@, i as int));
        match render_post(posts[i].stem.as_str(), &parsed[i]) {
            Some(rp) => {
                files.push(rp.file);
                links.push(rp.index_entry);
                items.push(rp.item);
                writes.push(rp.write);
            },
            None => {
                return Err(BuildError::PlainText { index: i });
            },
        }
        k = k + 1;
    }
    proof {
        assert forall|i: int| 0 <= i < posts.len() implies (#[trigger] html_plain_text(markdown_html(post_of(posts@, i).2))) is Some by {
            crate::ordering::lemma_index_order_covers(days_of(posts@), i);
            let k = choose|k: int| 0 <= k < posts.len() && ord[k] == i;
            assert(html_plain_text(markdown_html(post_of(posts@, ord[k] as int).2)) is Some);
        }
        assert(files@.map_values(|f: OutputFile| f@) =~= ordered_files(posts@));
        assert(links@.map_values(|l: String| l@) =~= ordered_entries(posts@));
        assert(items@.map_values(|i: FeedItem| i@) =~= ordered_items(posts@));
        assert(writes@.map_values(|w: IndexWrite| w@) =~= ordered_records(posts@));
    }
    Ok((files, links, items, writes))
}

/// Parses and renders the pages, adding their files and index writes.
fn render_pages(pages: &Vec<Source>, files: &mut Vec<OutputFile>, writes: &mut Vec<IndexWrite>) -> (r: Result<(), BuildError>)
    ensures
        match r {
            Ok(()) => pages_parse(pages@)
                && final(files)@.map_values(|f: OutputFile| f@) == old(files)@.map_values(|f: OutputFile| f@) + page_files(pages@)
                && final(writes)@.map_values(|w: IndexWrite| w@) == old(writes)@.map_values(|w: IndexWrite| w@) + page_records(pages@),
            Err(BuildError::MalformedPage { index, field }) => index < pages.len()
                && page_fields(pages@[index as int].text@) == Err::<(Seq<char>, Seq<char>), DocField>(field)
                && forall|j: int| 0 <= j < index ==> page_fields(#[trigger] pages@[j].text@) is Ok,
            Err(_) => false,
        },
{
    let ghost files0 = files@;
    let ghost writes0 = writes@;
    let mut i: usize = 0;
    while i < pages.len()
        invariant
            0 <= i <= pages.len(),
            files.len() == files0.len() + i,
            writes.len() == writes0.len() + i,
            forall|j: int| 0 <= j < files0.len() ==> files@[j] == files0[j],
            forall|j: int| 0 <= j < writes0.len() ==> writes@[j] == writes0[j],
            forall|j: int| 0 <= j < i ==> page_fields(#[trigger] pages@[j].text@) is Ok,
            forall|j: int| 0 <= j < i ==> #[trigger] files@[files0.len() + j]@ == page_files(pages@)[j],
            forall|j: int| 0 <= j < i ==> #[trigger] writes@[writes0.len() + j]@ == page_records(pages@)[j],
        decreases pages.len() - i,
    {
        match parse_page(pages[i].text.as_str()) {
            Ok(pg) => {
                let body_html = md_to_html(pg.body.as_str());
                let name = html_file_name(pages[i].stem.as_str());
                let content = page(pg.title.as_str(), body_html.as_str());
                files.push(OutputFile { name, content });
                writes.push(IndexWrite::Page { title: pg.title, html: body_html });
            },
            Err(ParseError::MalformedDocument(field)) => {
                return Err(BuildError::MalformedPage { index: i, field });
            },
        }
        i = i + 1;
    }
    let ghost fv = files@.map_values(|f: OutputFile| f@);
    let ghost fw = files0.map_values(|f: OutputFile| f@) + page_files(pages@);
    assert forall|j: int| 0 <= j < fv.len() implies #[trigger] fv[j] == fw[j] by {
        if j >= files0.len() {
            assert(files@[files0.len() + (j - files0.len())]@ == page_files(pages@)[j - files0.len()]);
        }
    }
    assert(fv =~= fw);
    let ghost wv = writes@.map_values(|w: IndexWrite| w@);
    let ghost ww = writes0.map_values(|w: IndexWrite| w@) + page_records(pages@);
    assert forall|j: int| 0 <= j < wv.len() implies #[trigger] wv[j] == ww[j] by {
        if j >= writes0.len() {
            assert(writes@[writes0.len() + (j - writes0.len())]@ == page_records(pages@)[j - writes0.len()]);
        }
    }
    assert(wv =~= ww);
    Ok(())
}

/// Builds the whole site from the post and page sources: posts are parsed, put in
/// index order and rendered, then the index page and the feed, then the pages.
/// The first failure stops the build.
pub fn build_site(posts: &Vec<Source>, pages: &Vec<Source>) -> (r: Result<Site, BuildError>)
    ensures
        match r {
            Ok(site) => posts_parse(posts@) && plain_texts_made(posts@) && pages_parse(pages@)
                && site_view(site) == built_site(posts@, pages@),
            Err(BuildError::MalformedPost { index, field }) => index < posts.len()
                && post_fields(posts@[index as int].text@) == Err::<(Seq<char>, Date, Seq<char>), DocField>(field)
                && forall|j: int| 0 <= j < index ==> post_fields(#[trigger] posts@[j].text@) is Ok,
            Err(BuildError::PlainText { index }) => posts_parse(posts@) && exists|k: int|
                0 <= k < posts.len() && post_order(posts@)[k] == index
                && html_plain_text(markdown_html(post_of(posts@, index as int).2)) is None
                && forall|j: int| 0 <= j < k ==> (#[trigger] html_plain_text(markdown_html(post_of(posts@, post_order(posts@)[j] as int).2))) is Some,
            Err(BuildError::MalformedPage { index, field }) => posts_parse(posts@) && plain_texts_made(posts@)
                && index < pages.len()
                && page_fields(pages@[index as int].text@) == Err::<(Seq<char>, Seq<char>), DocField>(field)
                && forall|j: int| 0 <= j < index ==> page_fields(#[trigger] pages@[j].text@) is Ok,
        },
{
    let parsed = match parse_posts(posts) {
        Ok(parsed) => parsed,
        Err(e) => {
            return Err(e);
        },
    };
    let (mut files, links, items, mut writes) = match render_posts(posts, &parsed) {
        Ok(rendered) => rendered,
        Err(e) => {
            return Err(e);
        },
    };
    let index_page = index(&links);
    let feed = rss_feed(&items);
    render_pages(pages, &mut files, &mut writes)?;
    Ok(Site { files, index: index_page, feed, writes })
}

/// In the index, the feed and the post writes, posts of later days come first;
/// posts of one day keep the order in which their sources were found.
pub proof fn lemma_posts_listed_by_day(posts: Seq<Source>)
    requires
        posts.len() <= usize::MAX,
    ensures
        is_index_order(days_of(posts), post_order(posts)),
        forall|i: int, j: int|
            0 <= i < j < posts.len() && post_of(posts, post_order(posts)[i] as int).1
                != post_of(posts, post_order(posts)[j] as int).1 ==> is_later(
                post_of(posts, #[trigger] post_order(posts)[i] as int).1,
                post_of(posts, #[trigger] post_order(posts)[j] as int).1,
            ),
{
    crate::ordering::lemma_index_order_by_day(days_of(posts));
    assert forall|i: int, j: int|
        0 <= i < j < posts.len() && post_of(posts, post_order(posts)[i] as int).1
            != post_of(posts, post_order(posts)[j] as int).1 implies is_later(
            post_of(posts, #[trigger] post_order(posts)[i] as int).1,
            post_of(posts, #[trigger] post_order(posts)[j] as int).1,
        ) by {
        assert(post_order(posts)[i] < posts.len() && post_order(posts)[j] < posts.len());
        assert(days_of(posts)[post_order(posts)[i] as int] == post_of(posts, post_order(posts)[i] as int).1);
        assert(days_of(posts)[post_order(posts)[j] as int] == post_of(posts, post_order(posts)[j] as int).1);
    }
}

/// Two builds of unchanged sources give the same files, index page, feed and
/// writes, and running the second build's writes after the first's leaves the
/// store as the first left it: no row is added and none changes.
pub proof fn lemma_rebuild_idempotent(st: StoreState, posts: Seq<Source>, pages: Seq<Source>, first: Site, second: Site)
    requires
        site_view(first) == built_site(posts, pages),
        site_view(second) == built_site(posts, pages),
    ensures
        site_view(first) == site_view(second),
        ({
            let w1 = site_view(first).3;
            let w2 = site_view(second).3;
            apply_writes(apply_writes(st, w1), w2) == apply_writes(st, w1)
        }),
{
    lemma_writes_idempotent(st, site_view(first).3);
}

} // verus!
