[package]
name = "topdf"
version = "0.1.0"
edition = "2021"
publish = false

[dependencies]
serde_json = "*"
pulldown-cmark = "*"
roxmltree = "*"
zip = { version = "*", default-features = false, features = ["deflate"] }
csv = "*"
html2text = "*"
genpdf = { version = "*", features = ["images"] }
