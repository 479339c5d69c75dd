use zct::date::Date;
use zct::document::{parse_page, parse_post, DocField, ParseError};
use zct::markup::md_to_html;

#[test]
fn recognizes_a_post() {
    let post_text = r"---
layout: post
title: some great title
created: 2029-12-18
---

some incredible post body with
multiple
lines
and paragraphs";

    let p = parse_post(post_text).unwrap();

    assert_eq!(p.title, "some great title");
    assert_eq!(
        chrono::NaiveDate::from_ymd_opt(p.created_on.year as i32, p.created_on.month, p.created_on.day),
        Some(chrono::NaiveDate::parse_from_str("2029-12-18", "%Y-%m-%d").unwrap()),
    );
    assert_eq!(
        md_to_html(&p.body),
        md_to_html(
            "some incredible post body with
multiple
lines
and paragraphs"
        )
    )
}

#[test]
fn recognizes_a_page() {
    let page_text = r"---
title: some great title
---

some incredible page body with
multiple
lines
and paragraphs";

    let p = parse_page(page_text).unwrap();

    assert_eq!(p.title, "some great title");
    assert_eq!(
        md_to_html(&p.body),
        md_to_html(
            "some incredible page body with
multiple
lines
and paragraphs"
        )
    )
}

fn post_source(title: &str, created: &str, body: &str) -> String {
    format!("---\nlayout: post\ntitle: {}\ncreated: {}\n---\n{}", title, created, body)
}

#[test]
fn post_fields_come_back_unchanged() {
    let p = parse_post(&post_source("A & B <c>", "0999-07-04", "  body\n\nwith lines  \n")).unwrap();
    assert_eq!(p.title, "A & B <c>");
    assert_eq!(p.created_on, Date { year: 999, month: 7, day: 4 });
    assert_eq!(p.body, "  body\n\nwith lines  \n");
}

#[test]
fn hello_world_post_fields() {
    let text = "---\nlayout: post\ntitle: Hello World\ncreated: 2024-03-01\n---\n\n# Hi";
    let p = parse_post(text).unwrap();
    assert_eq!(p.title, "Hello World");
    assert_eq!(p.created_on, Date { year: 2024, month: 3, day: 1 });
    assert_eq!(p.body, "\n# Hi");
}

#[test]
fn post_without_created_line_is_refused() {
    let text = "---\nlayout: post\ntitle: A\n---\nbody";
    assert_eq!(parse_post(text).unwrap_err(), ParseError::MalformedDocument(DocField::Created));
}

#[test]
fn post_without_layout_line_is_refused() {
    let text = "---\ntitle: A\ncreated: 2024-01-01\n---\nbody";
    assert_eq!(parse_post(text).unwrap_err(), ParseError::MalformedDocument(DocField::Layout));
}

#[test]
fn post_with_impossible_date_is_refused() {
    let err = parse_post(&post_source("A", "2024-13-40", "x")).unwrap_err();
    assert_eq!(err, ParseError::MalformedDocument(DocField::Created));
}

#[test]
fn post_date_must_have_four_two_two_digits() {
    for created in ["2024-1-01", "24-01-01x", "2024/01/01", "2024-01-1 "] {
        let err = parse_post(&post_source("A", created, "x")).unwrap_err();
        assert_eq!(err, ParseError::MalformedDocument(DocField::Created), "{}", created);
    }
}

#[test]
fn leap_days_follow_the_gregorian_rule() {
    assert!(parse_post(&post_source("A", "2024-02-29", "x")).is_ok());
    assert!(parse_post(&post_source("A", "2000-02-29", "x")).is_ok());
    assert!(parse_post(&post_source("A", "2023-02-29", "x")).is_err());
    assert!(parse_post(&post_source("A", "1900-02-29", "x")).is_err());
    assert!(parse_post(&post_source("A", "2023-04-31", "x")).is_err());
}

#[test]
fn post_errors_name_the_field() {
    assert_eq!(
        parse_post("--\nlayout: post\n").unwrap_err(),
        ParseError::MalformedDocument(DocField::OpeningDelimiter)
    );
    assert_eq!(
        parse_post("---\nlayout: post\ntitle: \ncreated: 2024-01-01\n---\nx").unwrap_err(),
        ParseError::MalformedDocument(DocField::Title)
    );
    assert_eq!(
        parse_post("---\nlayout: post\ntitle: A\ncreated: 2024-01-01\n--\nx").unwrap_err(),
        ParseError::MalformedDocument(DocField::ClosingDelimiter)
    );
    assert_eq!(
        parse_post("---\nlayout: post\ntitle: A\ncreated: 2024-01-01\n---\n").unwrap_err(),
        ParseError::MalformedDocument(DocField::Body)
    );
}

#[test]
fn page_errors_name_the_field() {
    assert_eq!(parse_page("").unwrap_err(), ParseError::MalformedDocument(DocField::OpeningDelimiter));
    assert_eq!(parse_page("---\nname: A\n---\nx").unwrap_err(), ParseError::MalformedDocument(DocField::Title));
    assert_eq!(parse_page("---\ntitle: A").unwrap_err(), ParseError::MalformedDocument(DocField::Title));
    assert_eq!(parse_page("---\ntitle: A\n").unwrap_err(), ParseError::MalformedDocument(DocField::ClosingDelimiter));
    assert_eq!(parse_page("---\ntitle: A\n\nx").unwrap_err(), ParseError::MalformedDocument(DocField::ClosingDelimiter));
    assert_eq!(parse_page("---\ntitle: A\n---\n").unwrap_err(), ParseError::MalformedDocument(DocField::Body));
}

#[test]
fn date_text_is_zero_padded() {
    assert_eq!(Date { year: 7, month: 3, day: 9 }.to_text(), "0007-03-09");
    assert!(Date { year: 2024, month: 1, day: 2 }.is_after(&Date { year: 2023, month: 12, day: 31 }));
    assert!(!Date { year: 2024, month: 1, day: 2 }.is_after(&Date { year: 2024, month: 1, day: 2 }));
}
