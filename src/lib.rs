//! Adaptive crawl scheduling for a gallery-organised community site: the
//! live directory's per-gallery state and shard listing, the worker's crawl
//! decisions, the parsers that turn listing rows and comment records into
//! canonical documents, and the normalisers applied to Korean post text.

pub mod text;
pub mod model;
pub mod directory;
pub mod time;
pub mod comment;
pub mod error;
pub mod listing;
pub mod html;
pub mod jsonp;
pub mod backoff;
pub mod crawl;
pub mod worker;
pub mod hangul;
pub mod norm;
