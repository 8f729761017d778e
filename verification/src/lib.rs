//! A batch publishing pipeline for a collection of dated documents.
//!
//! Each document carries a header of `key: value` lines and a free-form
//! body. The pipeline reads the headers, orders the documents by date,
//! groups them by section, turns rendered markup into page artifacts and
//! assembles a syndication feed.

pub mod feed;
pub mod frontmatter;
pub mod grouping;
pub mod loader;
pub mod order;
pub mod pipeline;
pub mod post;
pub mod render;
pub mod text;
pub mod timestamp;
