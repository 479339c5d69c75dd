use vstd::prelude::*;

use crate::date::{is_calendar_date, Date};
use crate::html::SITE_TITLE;

verus! {

/// The site's address, which post links start with.
pub const SITE_URL: &'static str = "https://zeroclarkthirty.com";

/// The description of the site's feed.
pub const SITE_DESCRIPTION: &'static str = "zeroclarkthirty.com";

/// One entry of the feed: title, absolute link, HTML content and publication date.
#[derive(Debug)]
pub struct FeedItem {
    pub title: String,
    pub link: String,
    pub content: String,
    pub pub_date: String,
}

impl View for FeedItem {
    type V = (Seq<char>, Seq<char>, Seq<char>, Seq<char>);

    open spec fn view(&self) -> (Seq<char>, Seq<char>, Seq<char>, Seq<char>) {
        (self.title@, self.link@, self.content@, self.pub_date@)
    }
}

/// The RSS document that the rss crate writes for a channel with the given
/// title, link and description and the given items (title, link, content,
/// publication date), in that order.
pub uninterp spec fn rss_xml(
    title: Seq<char>,
    link: Seq<char>,
    description: Seq<char>,
    items: Seq<(Seq<char>, Seq<char>, Seq<char>, Seq<char>)>,
) -> Seq<char>;

/// The RFC 2822 form that chrono gives to midnight UTC of a day.
pub uninterp spec fn rfc2822_midnight_utc(year: int, month: int, day: int) -> Seq<char>;

/// Relies on rss's `Channel` and `Item` setters and on its `Display` for
/// `Channel`, which writes the channel as XML; the text depends on the values
/// set alone.
#[verifier::external_body]
fn channel_xml(title: &str, link: &str, description: &str, items: &Vec<FeedItem>) -> (r: String)
    ensures
        r@ == rss_xml(title@, link@, description@, items@.map_values(|i: FeedItem| i@)),
{
    let mut channel = rss::Channel::default();
    channel.set_title(title);
    channel.set_link(link);
    channel.set_description(description);
    channel.set_items(items.iter().map(|i| {
        let mut item = rss::Item::default();
        item.set_title(i.title.clone());
        item.set_link(i.link.clone());
        item.set_content(i.content.clone());
        item.set_pub_date(i.pub_date.clone());
        item
    }).collect::<Vec<rss::Item>>());
    channel.to_string()
}

/// Relies on chrono's `DateTime::to_rfc2822`, for midnight UTC of the day; it
/// formats every year from 0 to 9999.
#[verifier::external_body]
fn midnight_rfc2822(year: u32, month: u32, day: u32) -> (r: String)
    requires
        is_calendar_date(year as int, month as int, day as int),
    ensures
        r@ == rfc2822_midnight_utc(year as int, month as int, day as int),
{
    chrono::NaiveDate::from_ymd_opt(year as i32, month, day)
        .and_then(|d| d.and_hms_opt(0, 0, 0))
        .map(|t| chrono::DateTime::<chrono::Utc>::from_naive_utc_and_offset(t, chrono::Utc).to_rfc2822())
        .unwrap_or_default()
}

/// The feed entry of a post, published at midnight UTC of its day.
pub fn rss_item(title: &str, created_on: Date, content: &str, link: &str) -> (r: FeedItem)
    requires
        created_on.wf(),
    ensures
        r@ == (title@, link@, content@, rfc2822_midnight_utc(
            created_on.year as int,
            created_on.month as int,
            created_on.day as int,
        )),
{
    FeedItem {
        title: String::from_str(title),
        link: String::from_str(link),
        content: String::from_str(content),
        pub_date: midnight_rfc2822(created_on.year, created_on.month, created_on.day),
    }
}

/// The site's feed, holding the given entries in their order.
pub fn rss_feed(items: &Vec<FeedItem>) -> (r: String)
    ensures
        r@ == rss_xml(SITE_TITLE@, SITE_URL@, SITE_DESCRIPTION@, items@.map_values(|i: FeedItem| i@)),
{
    channel_xml(SITE_TITLE, SITE_URL, SITE_DESCRIPTION, items)
}

} // verus!
