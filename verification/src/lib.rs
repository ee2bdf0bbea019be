//! Incremental archiver core for a subscription-platform crawler: the
//! checkpoint cache that makes repeated runs cheap, the pagination planner
//! that prunes already-processed pages, the rich-text content transformer,
//! and the bookkeeping that keeps partial failures from corrupting the
//! archive. Network and database access live outside this crate; the
//! functions here compute every decision those edges act on.

pub mod api;
pub mod body;
pub mod config;
pub mod context;
pub mod creators;
pub mod fanbox;
pub mod files;
pub mod headers;
pub mod pagination;
pub mod strings;
pub mod sync;
