//! A small blog library: posts are Markdown files with a front-matter
//! header. The library parses the header, renders the body to HTML,
//! and keeps the post list sorted by date, newest first.
//!
//! Slugs are derived from file names and are not checked for
//! uniqueness: two files that yield the same slug both appear in the
//! list, and a lookup by that slug reads the file named after it.
pub mod date;
pub mod frontmatter;
pub mod markdown;
pub mod pages;
pub mod post;
pub mod repo;
pub mod text;

pub use date::Date;
pub use post::Post;
