[package]
name = "blog_pipeline"
version = "0.1.0"
edition = "2021"
publish = false

[dependencies]
chrono = "0.4"
html-minifier = "*"
ignore = "0.4"
pulldown-cmark = "*"
rayon = "1"
rss = "2"
tera = "1"
