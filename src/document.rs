use vstd::prelude::*;

use crate::date::{date_from_text, Date};
use crate::text::{chars_of, substring};

verus! {

broadcast use vstd::string::group_string_axioms;

/// Which part of a document's front matter could not be matched.
#[derive(Clone, Copy, Debug, PartialEq, Eq, Structural)]
pub enum DocField {
    OpeningDelimiter,
    Layout,
    Title,
    Created,
    ClosingDelimiter,
    Body,
}

/// Why a document text was refused.
#[derive(Clone, Copy, Debug, PartialEq, Eq, Structural)]
pub enum ParseError {
    MalformedDocument(DocField),
}

/// A blog post: its title, the day it was written and its markdown source.
#[derive(Debug)]
pub struct Post {
    pub title: String,
    pub created_on: Date,
    pub body: String,
}

/// A standalone page: its title and its markdown source.
#[derive(Debug)]
pub struct Page {
    pub title: String,
    pub body: String,
}

impl View for Post {
    type V = (Seq<char>, Date, Seq<char>);

    open spec fn view(&self) -> (Seq<char>, Date, Seq<char>) {
        (self.title@, self.created_on, self.body@)
    }
}

impl View for Page {
    type V = (Seq<char>, Seq<char>);

    open spec fn view(&self) -> (Seq<char>, Seq<char>) {
        (self.title@, self.body@)
    }
}

pub open spec fn delimiter_line() -> Seq<char> {
    "---\n"@
}

pub open spec fn layout_line() -> Seq<char> {
    "layout: post\n"@
}

pub open spec fn title_key() -> Seq<char> {
    "title: "@
}

pub open spec fn created_key() -> Seq<char> {
    "created: "@
}

/// `lit` stands in `s` from index `i` on.
pub open spec fn has_at(s: Seq<char>, i: int, lit: Seq<char>) -> bool {
    0 <= i && i + lit.len() <= s.len() && s.subrange(i, i + lit.len()) == lit
}

/// The index of the first line break in `s` at or after `i`, or the length of `s`.
pub open spec fn line_end(s: Seq<char>, i: int) -> int
    decreases s.len() - i,
{
    if i < 0 || i >= s.len() {
        s.len() as int
    } else if s[i] == '\n' {
        i
    } else {
        line_end(s, i + 1)
    }
}

/// A title: a non-empty run of characters without a line break.
pub open spec fn is_title(t: Seq<char>) -> bool {
    t.len() > 0 && forall|j: int| 0 <= j < t.len() ==> t[j] != '\n'
}

/// The text of a post with the given title, date text and body.
pub open spec fn post_text(title: Seq<char>, created: Seq<char>, body: Seq<char>) -> Seq<char> {
    delimiter_line() + layout_line() + title_key() + title + seq!['\n'] + created_key() + created
        + seq!['\n'] + delimiter_line() + body
}

/// The text of a page with the given title and body.
pub open spec fn page_text(title: Seq<char>, body: Seq<char>) -> Seq<char> {
    delimiter_line() + title_key() + title + seq!['\n'] + delimiter_line() + body
}

/// The fields of a post text, or the first field that does not match the grammar.
pub open spec fn post_fields(s: Seq<char>) -> Result<(Seq<char>, Date, Seq<char>), DocField> {
    let t0 = (delimiter_line().len() + layout_line().len() + title_key().len()) as int;
    let e = line_end(s, t0);
    let ds = e + 1 + created_key().len();
    let bs = ds + 11 + delimiter_line().len();
    if !has_at(s, 0, delimiter_line()) {
        Err(DocField::OpeningDelimiter)
    } else if !has_at(s, delimiter_line().len() as int, layout_line()) {
        Err(DocField::Layout)
    } else if !has_at(s, (delimiter_line().len() + layout_line().len()) as int, title_key()) {
        Err(DocField::Title)
    } else if e == t0 || e >= s.len() {
        Err(DocField::Title)
    } else if !has_at(s, e + 1, created_key()) {
        Err(DocField::Created)
    } else if ds + 11 > s.len() || s[ds + 10] != '\n' || date_from_text(s.subrange(ds, ds + 10))
        is None {
        Err(DocField::Created)
    } else if !has_at(s, ds + 11, delimiter_line()) {
        Err(DocField::ClosingDelimiter)
    } else if bs >= s.len() {
        Err(DocField::Body)
    } else {
        Ok((s.subrange(t0, e), date_from_text(s.subrange(ds, ds + 10))->0, s.subrange(bs, s.len() as int)))
    }
}

/// The fields of a page text, or the first field that does not match the grammar.
pub open spec fn page_fields(s: Seq<char>) -> Result<(Seq<char>, Seq<char>), DocField> {
    let t0 = (delimiter_line().len() + title_key().len()) as int;
    let e = line_end(s, t0);
    let bs = e + 1 + delimiter_line().len();
    if !has_at(s, 0, delimiter_line()) {
        Err(DocField::OpeningDelimiter)
    } else if !has_at(s, delimiter_line().len() as int, title_key()) {
        Err(DocField::Title)
    } else if e == t0 || e >= s.len() {
        Err(DocField::Title)
    } else if !has_at(s, e + 1, delimiter_line()) {
        Err(DocField::ClosingDelimiter)
    } else if bs >= s.len() {
        Err(DocField::Body)
    } else {
        Ok((s.subrange(t0, e), s.subrange(bs, s.len() as int)))
    }
}

/// Whether `lit` stands in `v` from index `i` on.
fn matches_at(v: &Vec<char>, i: usize, lit: &str) -> (r: bool)
    ensures
        r == has_at(v@, i as int, lit@),
{
    let l = chars_of(lit);
    if i > v.len() || l.len() > v.len() - i {
        return false;
    }
    let mut k: usize = 0;
    while k < l.len()
        invariant
            i + l.len() <= v.len(),
            l@ == lit@,
            0 <= k <= l.len(),
            forall|j: int| 0 <= j < k ==> v@[i + j] == l@[j],
        decreases l.len() - k,
    {
        if v[i + k] != l[k] {
            assert(v@.subrange(i as int, i + l.len())[k as int] != lit@[k as int]);
            return false;
        }
        k = k + 1;
    }
    assert(v@.subrange(i as int, i + l.len()) =~= lit@);
    true
}

/// The index of the first line break in `v` at or after `i`, or the length of `v`.
fn find_line_end(v: &Vec<char>, i: usize) -> (r: usize)
    requires
        i <= v.len(),
    ensures
        r == line_end(v@, i as int),
        i <= r <= v.len(),
        forall|j: int| i <= j < r ==> v@[j] != '\n',
{
    let mut e: usize = i;
    while e < v.len() && v[e] != '\n'
        invariant
            i <= e <= v.len(),
            line_end(v@, i as int) == line_end(v@, e as int),
            forall|j: int| i <= j < e ==> v@[j] != '\n',
        decreases v.len() - e,
    {
        e = e + 1;
    }
    e
}

fn malformed<T>(field: DocField) -> (r: Result<T, ParseError>)
    ensures
        r == Err::<T, ParseError>(ParseError::MalformedDocument(field)),
{
    Err(ParseError::MalformedDocument(field))
}

/// Splits a post text into its title, creation day and markdown body.
pub fn parse_post(s: &str) -> (r: Result<Post, ParseError>)
    ensures
        match r {
            Ok(p) => post_fields(s@) == Ok::<_, DocField>(p@) && p.created_on.wf(),
            Err(ParseError::MalformedDocument(f)) => post_fields(s@) == Err::<
                (Seq<char>, Date, Seq<char>),
                DocField,
            >(f),
        },
{
    let v = chars_of(s);
    proof {
        reveal_strlit("---\n");
        reveal_strlit("layout: post\n");
        reveal_strlit("title: ");
        reveal_strlit("created: ");
    }
    if !matches_at(&v, 0, "---\n") {
        return malformed(DocField::OpeningDelimiter);
    }
    if !matches_at(&v, 4, "layout: post\n") {
        return malformed(DocField::Layout);
    }
    if !matches_at(&v, 17, "title: ") {
        return malformed(DocField::Title);
    }
    let e = find_line_end(&v, 24);
    if e == 24 || e >= v.len() {
        return malformed(DocField::Title);
    }
    if !matches_at(&v, e + 1, "created: ") {
        return malformed(DocField::Created);
    }
    let ds = e + 10;
    if v.len() - ds < 11 || v[ds + 10] != '\n' {
        return malformed(DocField::Created);
    }
    let created_on = match Date::parse_text(&v, ds) {
        Some(d) => d,
        None => {
            return malformed(DocField::Created);
        },
    };
    if !matches_at(&v, ds + 11, "---\n") {
        return malformed(DocField::ClosingDelimiter);
    }
    let bs = ds + 15;
    if bs >= v.len() {
        return malformed(DocField::Body);
    }
    let title = substring(s, 24, e);
    let body = substring(s, bs, v.len());
    Ok(Post { title, created_on, body })
}

/// Splits a page text into its title and markdown body.
pub fn parse_page(s: &str) -> (r: Result<Page, ParseError>)
    ensures
        match r {
            Ok(p) => page_fields(s@) == Ok::<_, DocField>(p@),
            Err(ParseError::MalformedDocument(f)) => page_fields(s@) == Err::<
                (Seq<char>, Seq<char>),
                DocField,
            >(f),
        },
{
    let v = chars_of(s);
    proof {
        reveal_strlit("---\n");
        reveal_strlit("title: ");
    }
    if !matches_at(&v, 0, "---\n") {
        return malformed(DocField::OpeningDelimiter);
    }
    if !matches_at(&v, 4, "title: ") {
        return malformed(DocField::Title);
    }
    let e = find_line_end(&v, 11);
    if e == 11 || e >= v.len() {
        return malformed(DocField::Title);
    }
    if !matches_at(&v, e + 1, "---\n") {
        return malformed(DocField::ClosingDelimiter);
    }
    let bs = e + 5;
    if bs >= v.len() {
        return malformed(DocField::Body);
    }
    let title = substring(s, 11, e);
    let body = substring(s, bs, v.len());
    Ok(Page { title, body })
}

proof fn lemma_line_end_at(s: Seq<char>, i: int, e: int)
    requires
        0 <= i <= e < s.len(),
        s[e] == '\n',
        forall|j: int| i <= j < e ==> s[j] != '\n',
    ensures
        line_end(s, i) == e,
    decreases e - i,
{
    if i < e {
        lemma_line_end_at(s, i + 1, e);
    }
}

proof fn lemma_literals()
    ensures
        delimiter_line() == seq!['-', '-', '-', '\n'],
        layout_line().len() == 13,
        title_key().len() == 7,
        created_key().len() == 9,
        created_key()[0] != '\n',
{
    reveal_strlit("---\n");
    reveal_strlit("layout: post\n");
    reveal_strlit("title: ");
    reveal_strlit("created: ");
    assert(delimiter_line() =~= seq!['-', '-', '-', '\n']);
}

/// Parsing the text of a post with a title, an existing day and a non-empty body
/// gives back exactly that title, day and body.
pub proof fn lemma_post_round_trip(title: Seq<char>, created_on: Date, body: Seq<char>)
    requires
        is_title(title),
        created_on.wf(),
        body.len() > 0,
    ensures
        post_fields(post_text(title, created_on.text(), body)) == Ok::<_, DocField>(
            (title, created_on, body),
        ),
{
    lemma_literals();
    crate::date::lemma_date_text_round_trip(created_on);
    let s = post_text(title, created_on.text(), body);
    let e = 24 + title.len() as int;
    let ds = e + 10;
    let bs = ds + 15;
    assert(s.len() == bs + body.len());
    assert(s.subrange(0, 4) =~= delimiter_line());
    assert(s.subrange(4, 17) =~= layout_line());
    assert(s.subrange(17, 24) =~= title_key());
    assert forall|j: int| 24 <= j < e implies s[j] != '\n' by {
        assert(s[j] == title[j - 24]);
    }
    assert(s[e] == '\n');
    lemma_line_end_at(s, 24, e);
    assert(s.subrange(e + 1, e + 10) =~= created_key());
    assert(s.subrange(ds, ds + 10) =~= created_on.text());
    assert(s[ds + 10] == '\n');
    assert(s.subrange(ds + 11, ds + 15) =~= delimiter_line());
    assert(s.subrange(24, e) =~= title);
    assert(s.subrange(bs, s.len() as int) =~= body);
}

/// Whatever parses as a post is the text of a post with a title, an existing day
/// and a non-empty body, and of exactly the fields that parsing gave.
pub proof fn lemma_post_fields_sound(s: Seq<char>)
    requires
        post_fields(s) is Ok,
    ensures
        ({
            let (title, created_on, body) = post_fields(s)->Ok_0;
            is_title(title) && created_on.wf() && body.len() > 0 && s == post_text(
                title,
                created_on.text(),
                body,
            )
        }),
{
    lemma_literals();
    let (title, created_on, body) = post_fields(s)->Ok_0;
    let e = line_end(s, 24);
    let ds = e + 10;
    lemma_line_end_props(s, 24);
    crate::date::lemma_date_text_canonical(s.subrange(ds, ds + 10));
    assert forall|j: int| 0 <= j < title.len() implies title[j] != '\n' by {
        assert(title[j] == s[24 + j]);
    }
    assert(s =~= post_text(title, created_on.text(), body));
}

proof fn lemma_line_end_props(s: Seq<char>, i: int)
    requires
        0 <= i <= s.len(),
    ensures
        i <= line_end(s, i) <= s.len(),
        forall|j: int| i <= j < line_end(s, i) ==> s[j] != '\n',
        line_end(s, i) < s.len() ==> s[line_end(s, i)] == '\n',
    decreases s.len() - i,
{
    if i < s.len() && s[i] != '\n' {
        lemma_line_end_props(s, i + 1);
    }
}

/// A text that is not a post with a title, an existing day and a non-empty body
/// (one without its layout or created line, say, or with a day that does not
/// exist) is refused.
pub proof fn lemma_malformed_post_refused(s: Seq<char>)
    requires
        !exists|title: Seq<char>, created_on: Date, body: Seq<char>|
            is_title(title) && created_on.wf() && body.len() > 0 && s == post_text(
                title,
                created_on.text(),
                body,
            ),
    ensures
        post_fields(s) is Err,
{
    if post_fields(s) is Ok {
        lemma_post_fields_sound(s);
        let (title, created_on, body) = post_fields(s)->Ok_0;
        assert(is_title(title) && created_on.wf() && body.len() > 0 && s == post_text(
            title,
            created_on.text(),
            body,
        ));
    }
}

/// A post whose created line does not hold an existing day written as
/// `YYYY-MM-DD` is refused on that field.
pub proof fn lemma_bad_date_refused(title: Seq<char>, created: Seq<char>, body: Seq<char>)
    requires
        is_title(title),
        created.len() == 10,
        date_from_text(created) is None,
    ensures
        post_fields(post_text(title, created, body)) == Err::<(Seq<char>, Date, Seq<char>), DocField>(
            DocField::Created,
        ),
{
    lemma_literals();
    let s = post_text(title, created, body);
    let e = 24 + title.len() as int;
    let ds = e + 10;
    assert(s.subrange(0, 4) =~= delimiter_line());
    assert(s.subrange(4, 17) =~= layout_line());
    assert(s.subrange(17, 24) =~= title_key());
    assert forall|j: int| 24 <= j < e implies s[j] != '\n' by {
        assert(s[j] == title[j - 24]);
    }
    assert(s[e] == '\n');
    lemma_line_end_at(s, 24, e);
    assert(s.subrange(e + 1, e + 10) =~= created_key());
    assert(s.subrange(ds, ds + 10) =~= created);
}

} // verus!
