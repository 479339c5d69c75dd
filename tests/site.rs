use zct::date::Date;
use zct::document::DocField;
use zct::feed::{rss_feed, rss_item, FeedItem};
use zct::html::{index, index_link, layout, page, post};
use zct::markup::md_to_html;
use zct::ordering::index_order;
use zct::site::{build_site, html_file_name, BuildError, Source};
use zct::store::IndexWrite;

fn src(stem: &str, text: &str) -> Source {
    Source { stem: stem.to_string(), text: text.to_string() }
}

fn post_source(stem: &str, title: &str, created: &str, body: &str) -> Source {
    src(stem, &format!("---\nlayout: post\ntitle: {}\ncreated: {}\n---\n{}", title, created, body))
}

#[test]
fn hello_world_build() {
    let posts = vec![src(
        "hello-world",
        "---\nlayout: post\ntitle: Hello World\ncreated: 2024-03-01\n---\n\n# Hi",
    )];
    let site = build_site(&posts, &vec![]).unwrap();
    assert_eq!(site.files.len(), 1);
    assert_eq!(site.files[0].name, "hello-world.html");
    assert!(site.files[0].content.contains("<h2>Hello World</h2><p class=\"meta\">2024-03-01</p>"));
    assert!(site.files[0].content.contains("<h1>Hi</h1>"));
    assert_eq!(site.feed.matches("<item>").count(), 1);
    assert!(site.feed.contains("<title>Hello World</title>"));
    assert!(site.feed.contains("<link>https://zeroclarkthirty.com/hello-world.html</link>"));
    assert!(site.feed.contains("<pubDate>Fri, 1 Mar 2024 00:00:00 +0000</pubDate>"));
    assert!(site.index.contains(
        "<li><a href=\"hello-world.html\">Hello World</a> <span>2024-03-01</span></li>"
    ));
    match &site.writes[0] {
        IndexWrite::Post { title, text, created_on } => {
            assert_eq!(title, "Hello World");
            assert_eq!(created_on, "2024-03-01");
            assert!(text.contains("Hi"));
            assert!(!text.contains("<h1>"));
        }
        IndexWrite::Page { .. } => panic!("expected a post write"),
    }
}

#[test]
fn empty_sources_build_an_empty_site() {
    let site = build_site(&vec![], &vec![]).unwrap();
    assert!(site.files.is_empty());
    assert!(site.writes.is_empty());
    assert!(site.index.contains("<div id=\"home\"><ul class=\"posts\"></ul></div>"));
    assert!(!site.feed.contains("<item>"));
    assert!(site.feed.contains("<title>Clark Kampfe - zeroclarkthirty.com</title>"));
}

#[test]
fn index_lists_later_days_first_and_keeps_found_order_within_a_day() {
    let posts = vec![
        post_source("a", "A", "2024-01-01", "a"),
        post_source("b", "B", "2024-05-01", "b"),
        post_source("c", "C", "2024-01-01", "c"),
        post_source("d", "D", "2023-12-31", "d"),
    ];
    let site = build_site(&posts, &vec![]).unwrap();
    let names: Vec<&str> = site.files.iter().map(|f| f.name.as_str()).collect();
    assert_eq!(names, vec!["b.html", "a.html", "c.html", "d.html"]);
    let pos = |s: &str| site.index.find(s).unwrap();
    assert!(pos("b.html") < pos("a.html"));
    assert!(pos("a.html") < pos("c.html"));
    assert!(pos("c.html") < pos("d.html"));
    let feed_pos = |s: &str| site.feed.find(s).unwrap();
    assert!(feed_pos("/b.html") < feed_pos("/a.html"));
    assert!(feed_pos("/c.html") < feed_pos("/d.html"));
}

#[test]
fn index_order_of_days() {
    let days = vec![
        Date { year: 2020, month: 1, day: 1 },
        Date { year: 2021, month: 1, day: 1 },
        Date { year: 2020, month: 1, day: 1 },
        Date { year: 2020, month: 6, day: 1 },
    ];
    assert_eq!(index_order(&days), vec![1, 3, 0, 2]);
    assert_eq!(index_order(&vec![]), Vec::<usize>::new());
}

#[test]
fn building_twice_gives_identical_output() {
    let posts = vec![
        post_source("one", "One", "2024-01-01", "first *post*"),
        post_source("two", "Two", "2024-02-01", "second post"),
    ];
    let pages = vec![src("about", "---\ntitle: About\n---\nabout me")];
    let a = build_site(&posts, &pages).unwrap();
    let b = build_site(&posts, &pages).unwrap();
    assert_eq!(a.index, b.index);
    assert_eq!(a.feed, b.feed);
    assert_eq!(a.files.len(), b.files.len());
    for (x, y) in a.files.iter().zip(b.files.iter()) {
        assert_eq!(x.name, y.name);
        assert_eq!(x.content, y.content);
    }
    assert_eq!(format!("{:?}", a.writes), format!("{:?}", b.writes));
}

#[test]
fn rebuilt_post_keeps_its_key_with_the_new_body() {
    let first = build_site(&vec![post_source("a", "A", "2024-01-01", "x")], &vec![]).unwrap();
    let second = build_site(&vec![post_source("a", "A", "2024-01-01", "y")], &vec![]).unwrap();
    match (&first.writes[0], &second.writes[0]) {
        (
            IndexWrite::Post { title: t1, text: x, created_on: c1 },
            IndexWrite::Post { title: t2, text: y, created_on: c2 },
        ) => {
            assert_eq!((t1.as_str(), c1.as_str()), ("A", "2024-01-01"));
            assert_eq!((t2.as_str(), c2.as_str()), ("A", "2024-01-01"));
            assert_eq!(x.trim(), "x");
            assert_eq!(y.trim(), "y");
        }
        _ => panic!("expected post writes"),
    }
}

#[test]
fn pages_follow_posts_and_store_their_html() {
    let posts = vec![post_source("p", "P", "2024-01-01", "post")];
    let pages = vec![src("about", "---\ntitle: About & more\n---\n\n*me*")];
    let site = build_site(&posts, &pages).unwrap();
    assert_eq!(site.files[1].name, "about.html");
    assert!(site.files[1].content.contains("<title>About &amp; more</title>"));
    assert!(site.files[1].content.contains("<h1>About &amp; more</h1><div class=\"page\"><p><em>me</em></p>\n</div>"));
    match &site.writes[1] {
        IndexWrite::Page { title, html } => {
            assert_eq!(title, "About & more");
            assert_eq!(html, "<p><em>me</em></p>\n");
        }
        IndexWrite::Post { .. } => panic!("expected a page write"),
    }
}

#[test]
fn first_malformed_post_stops_the_build() {
    let posts = vec![
        post_source("a", "A", "2024-01-01", "a"),
        post_source("b", "B", "2024-13-01", "b"),
        src("c", "nothing"),
    ];
    let err = build_site(&posts, &vec![]).unwrap_err();
    assert_eq!(err, BuildError::MalformedPost { index: 1, field: DocField::Created });
}

#[test]
fn malformed_page_stops_the_build() {
    let pages = vec![src("ok", "---\ntitle: T\n---\nx"), src("bad", "---\ntitle: T\nx")];
    let err = build_site(&vec![], &pages).unwrap_err();
    assert_eq!(err, BuildError::MalformedPage { index: 1, field: DocField::ClosingDelimiter });
}

#[test]
fn templates_escape_text_but_not_markup() {
    assert_eq!(
        index_link("a&b.html", "<i>T</i>", "2024-01-01"),
        "<li><a href=\"a&amp;b.html\"><i>T</i></a> <span>2024-01-01</span></li>"
    );
    let l = layout("\"q\" <t>", "<p>c</p>");
    assert!(l.starts_with("<!DOCTYPE html><head><meta charset=\"utf-8\">"));
    assert!(l.contains("<title>&quot;q&quot; &lt;t&gt;</title>"));
    assert!(l.contains("</div><p>c</p><div class=\"footer\">"));
    assert!(l.ends_with("</body>"));
    let p = post("<b>T</b>", "2024-01-01", "<p>c</p>");
    assert!(p.contains("<h2><b>T</b></h2><p class=\"meta\">2024-01-01</p><div class=\"post\"><p>c</p></div>"));
    let g = page("T", "<p>c</p>");
    assert!(g.contains("<div><h1>T</h1><div class=\"page\"><p>c</p></div></div>"));
    let i = index(&vec!["<li>1</li>".to_string(), "<li>2</li>".to_string()]);
    assert!(i.contains("<title>Clark Kampfe - zeroclarkthirty.com</title>"));
    assert!(i.contains("<ul class=\"posts\"><li>1</li><li>2</li></ul>"));
}

#[test]
fn markdown_becomes_html() {
    assert_eq!(md_to_html("# Hi"), "<h1>Hi</h1>\n");
    assert_eq!(md_to_html("a *b*"), "<p>a <em>b</em></p>\n");
}

#[test]
fn feed_items_carry_the_rfc2822_day() {
    let item = rss_item("T", Date { year: 2029, month: 12, day: 18 }, "<p>c</p>", "https://x/t.html");
    assert_eq!(item.pub_date, "Tue, 18 Dec 2029 00:00:00 +0000");
    assert_eq!(item.title, "T");
    assert_eq!(item.link, "https://x/t.html");
    let feed = rss_feed(&vec![item]);
    assert!(feed.contains("<description>zeroclarkthirty.com</description>"));
    assert!(feed.contains("<link>https://zeroclarkthirty.com</link>"));
    assert!(feed.contains("<pubDate>Tue, 18 Dec 2029 00:00:00 +0000</pubDate>"));
    let empty: Vec<FeedItem> = vec![];
    assert!(!rss_feed(&empty).contains("<item>"));
}

#[test]
fn output_names_take_the_html_extension() {
    assert_eq!(html_file_name("hello-world"), "hello-world.html");
}
