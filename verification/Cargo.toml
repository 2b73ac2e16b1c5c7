[package]
name = "blog_posts"
version = "0.1.0"
edition = "2021"
publish = false

[dependencies]
gray_matter = "*"
pulldown-cmark = "*"
serde_json = "*"
