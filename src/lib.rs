//! Verified core of a set of catalog adapters for a manga reader: query
//! translation for a paginated catalog API, pagination decisions, record
//! mapping, deep-link resolution and a shared request budget.
pub mod text;
pub mod strings;
pub mod query;
pub mod records;
pub mod link;
pub mod chapters;
pub mod listing;
pub mod feed;
pub mod rate;
pub mod mangastream;
pub mod hentai2read;
