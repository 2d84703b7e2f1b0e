[package]
name = "pasteboard"
version = "0.1.0"
edition = "2021"
publish = false

[dependencies]
twox-hash = "1.6"
url = "2"
urlencoding = "2"
serde_json = "1"
chrono = "0.4"
clipboard-rs = "*"
log = "0.4"
tokio = { version = "1", features = ["rt-multi-thread", "sync", "macros"] }
sea-orm = { version = "1", default-features = false, features = ["sqlx-sqlite", "runtime-tokio-rustls", "macros", "with-chrono"] }
sea-orm-migration = { version = "1", default-features = false, features = ["sqlx-sqlite", "runtime-tokio-rustls"] }
async-trait = "0.1"
