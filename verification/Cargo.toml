[package]
name = "asd"
version = "0.1.0"
edition = "2021"
publish = false

[dependencies]
anyhow = "1"
chrono = { version = "0.4", default-features = false, features = ["clock", "std"] }
fuzzy-matcher = "0.3"
gix = { version = "*", default-features = false, features = ["blob-diff", "revision", "status", "sha1", "parallel"] }
postcard = { version = "1", features = ["use-std"] }
pulldown-cmark = { version = "0.13", default-features = false }
ratatui = "0.29"
serde = { version = "1", features = ["derive"] }
serde_json = "1"
syntect = { version = "5", default-features = false, features = ["default-syntaxes", "default-themes", "parsing", "regex-fancy"] }
thiserror = "2"
tokio = { version = "1", features = ["rt", "macros", "sync", "time", "io-util", "net"] }
tracing = "0.1"
tracing-subscriber = { version = "0.3", features = ["env-filter"] }
unicode-segmentation = "1"
unicode-width = "0.2"
