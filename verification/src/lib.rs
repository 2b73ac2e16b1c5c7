//! Ingestion pipeline for a markdown blog: turns the text of post files —
//! YAML frontmatter followed by a markdown body — into a sorted, queryable
//! collection of posts.

pub mod dates;
pub mod frontmatter;
pub mod laws;
pub mod markdown;
pub mod model;
pub mod posts;
pub mod yaml;
