//! A static site builder: parses front-matter documents, orders posts,
//! renders pages, the index and the feed, and plans the search-index writes.

pub mod date;
pub mod text;
pub mod document;
pub mod html;
pub mod markup;
pub mod ordering;
pub mod store;
pub mod feed;
pub mod site;
