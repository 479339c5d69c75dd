use vstd::prelude::*;

verus! {

/// Creates the posts table.
pub const CREATE_POSTS: &'static str = "create table if not exists posts (id integer primary key, title text, body text, created_on text)";

/// Makes (title, created_on) a key of the posts table.
pub const CREATE_POSTS_KEY: &'static str = "create unique index if not exists posts_title_created_on on posts (title, created_on)";

/// Creates the full-text shadow of the posts table.
pub const CREATE_POSTS_SEARCH: &'static str = "create virtual table if not exists posts_search using fts5(title, body, created_on)";

/// Copies each new post row into the full-text shadow.
pub const CREATE_POSTS_TRIGGER: &'static str = "create trigger if not exists posts_fts5
    after insert on posts
    for each row
    begin
        insert into posts_search (title, body, created_on) values (new.title, new.body, new.created_on);
    end;
    ";

/// Creates the pages table.
pub const CREATE_PAGES: &'static str = "create table if not exists pages (id integer primary key, title text, body text)";

/// Makes the title a key of the pages table.
pub const CREATE_PAGES_KEY: &'static str = "create unique index if not exists pages_title on pages (title)";

/// Inserts a post row, or replaces the body of the row with its key; parameters
/// are the title, the plain text and the day.
pub const UPSERT_POST: &'static str = "insert into posts (title, body, created_on) values (?, ?, ?) on conflict (title, created_on) do update set body = excluded.body";

/// Inserts a page row, or replaces the body of the row with its title;
/// parameters are the title and the HTML.
pub const UPSERT_PAGE: &'static str = "insert into pages (title, body) values (?, ?) on conflict (title) do update set body = excluded.body";

/// One write to the search index.
#[derive(Debug)]
pub enum IndexWrite {
    /// Upsert of a post row keyed on its title and day.
    Post { title: String, text: String, created_on: String },
    /// Upsert of a page row keyed on its title.
    Page { title: String, html: String },
}

/// What an index write carries.
pub enum IndexRecord {
    Post { title: Seq<char>, text: Seq<char>, created_on: Seq<char> },
    Page { title: Seq<char>, html: Seq<char> },
}

impl View for IndexWrite {
    type V = IndexRecord;

    open spec fn view(&self) -> IndexRecord {
        match self {
            IndexWrite::Post { title, text, created_on } => IndexRecord::Post {
                title: title@,
                text: text@,
                created_on: created_on@,
            },
            IndexWrite::Page { title, html } => IndexRecord::Page { title: title@, html: html@ },
        }
    }
}

/// The contents of the store: post bodies by (title, day), the full-text rows in
/// the order they were added, and page bodies by title.
pub struct StoreState {
    pub posts: Map<(Seq<char>, Seq<char>), Seq<char>>,
    pub search: Seq<(Seq<char>, Seq<char>, Seq<char>)>,
    pub pages: Map<Seq<char>, Seq<char>>,
}

/// One upsert. A post with a new key gets a row and, by the insert trigger, a
/// full-text row; a post with a known key only has its body replaced, and its
/// full-text row stays as it was first written.
pub open spec fn apply_write(st: StoreState, w: IndexRecord) -> StoreState {
    match w {
        IndexRecord::Post { title, text, created_on } => {
            if st.posts.contains_key((title, created_on)) {
                StoreState { posts: st.posts.insert((title, created_on), text), ..st }
            } else {
                StoreState {
                    posts: st.posts.insert((title, created_on), text),
                    search: st.search.push((title, text, created_on)),
                    ..st
                }
            }
        },
        IndexRecord::Page { title, html } => StoreState {
            pages: st.pages.insert(title, html),
            ..st
        },
    }
}

/// The upserts of `ws`, one after another.
pub open spec fn apply_writes(st: StoreState, ws: Seq<IndexRecord>) -> StoreState
    decreases ws.len(),
{
    if ws.len() == 0 {
        st
    } else {
        apply_write(apply_writes(st, ws.drop_last()), ws.last())
    }
}

/// The last post body that `ws` writes under each key.
pub open spec fn last_post_bodies(ws: Seq<IndexRecord>) -> Map<(Seq<char>, Seq<char>), Seq<char>>
    decreases ws.len(),
{
    if ws.len() == 0 {
        Map::empty()
    } else {
        match ws.last() {
            IndexRecord::Post { title, text, created_on } => last_post_bodies(ws.drop_last()).insert(
                (title, created_on),
                text,
            ),
            IndexRecord::Page { .. } => last_post_bodies(ws.drop_last()),
        }
    }
}

/// The last page body that `ws` writes under each title.
pub open spec fn last_page_bodies(ws: Seq<IndexRecord>) -> Map<Seq<char>, Seq<char>>
    decreases ws.len(),
{
    if ws.len() == 0 {
        Map::empty()
    } else {
        match ws.last() {
            IndexRecord::Post { .. } => last_page_bodies(ws.drop_last()),
            IndexRecord::Page { title, html } => last_page_bodies(ws.drop_last()).insert(title, html),
        }
    }
}

/// After a run of upserts, each key holds the last body written under it, and
/// every other row is as it was.
pub proof fn lemma_apply_writes_rows(st: StoreState, ws: Seq<IndexRecord>)
    ensures
        apply_writes(st, ws).posts == st.posts.union_prefer_right(last_post_bodies(ws)),
        apply_writes(st, ws).pages == st.pages.union_prefer_right(last_page_bodies(ws)),
    decreases ws.len(),
{
    if ws.len() > 0 {
        lemma_apply_writes_rows(st, ws.drop_last());
        let prev = apply_writes(st, ws.drop_last());
        match ws.last() {
            IndexRecord::Post { title, text, created_on } => {
                assert(prev.posts.insert((title, created_on), text) =~= st.posts.union_prefer_right(
                    last_post_bodies(ws),
                ));
                assert(apply_writes(st, ws).pages =~= st.pages.union_prefer_right(
                    last_page_bodies(ws),
                ));
            },
            IndexRecord::Page { title, html } => {
                assert(prev.pages.insert(title, html) =~= st.pages.union_prefer_right(
                    last_page_bodies(ws),
                ));
                assert(apply_writes(st, ws).posts =~= st.posts.union_prefer_right(
                    last_post_bodies(ws),
                ));
            },
        }
    }
}

proof fn lemma_no_new_search_rows(st: StoreState, ws: Seq<IndexRecord>)
    requires
        last_post_bodies(ws).dom().subset_of(st.posts.dom()),
    ensures
        apply_writes(st, ws).search == st.search,
        apply_writes(st, ws).posts.dom() == st.posts.dom(),
    decreases ws.len(),
{
    if ws.len() > 0 {
        let ws0 = ws.drop_last();
        assert(last_post_bodies(ws0).dom().subset_of(st.posts.dom())) by {
            lemma_post_keys_grow(ws);
        }
        lemma_no_new_search_rows(st, ws0);
        match ws.last() {
            IndexRecord::Post { title, text, created_on } => {
                assert(last_post_bodies(ws).contains_key((title, created_on)));
                assert(apply_writes(st, ws).posts.dom() =~= st.posts.dom());
            },
            IndexRecord::Page { .. } => {},
        }
    }
}

proof fn lemma_post_keys_grow(ws: Seq<IndexRecord>)
    requires
        ws.len() > 0,
    ensures
        last_post_bodies(ws.drop_last()).dom().subset_of(last_post_bodies(ws).dom()),
{
}

/// Running the same writes a second time changes nothing: no row, no full-text
/// row and no body differs from the state after the first run.
pub proof fn lemma_writes_idempotent(st: StoreState, ws: Seq<IndexRecord>)
    ensures
        apply_writes(apply_writes(st, ws), ws) == apply_writes(st, ws),
{
    let once = apply_writes(st, ws);
    lemma_apply_writes_rows(st, ws);
    lemma_apply_writes_rows(once, ws);
    lemma_no_new_search_rows(once, ws);
    let twice = apply_writes(once, ws);
    assert(twice.posts =~= once.posts);
    assert(twice.pages =~= once.pages);
}

/// Writing a post and then the same title and day with another body leaves one
/// row for that key, holding the second body, and adds no full-text row.
pub proof fn lemma_upsert_replaces_body(
    st: StoreState,
    title: Seq<char>,
    created_on: Seq<char>,
    first: Seq<char>,
    second: Seq<char>,
)
    ensures
        ({
            let once = apply_write(st, IndexRecord::Post { title, text: first, created_on });
            let twice = apply_write(once, IndexRecord::Post { title, text: second, created_on });
            &&& twice.posts[(title, created_on)] == second
            &&& twice.posts.dom() == once.posts.dom()
            &&& twice.search == once.search
            &&& twice.pages == once.pages
        }),
{
    let once = apply_write(st, IndexRecord::Post { title, text: first, created_on });
    let twice = apply_write(once, IndexRecord::Post { title, text: second, created_on });
    assert(twice.posts.dom() =~= once.posts.dom());
}

} // verus!
