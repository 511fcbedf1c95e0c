[package]
name = "song_load_rs"
version = "0.1.0"
edition = "2021"
publish = false

[dependencies]
sha1 = "0.10"
zip = { version = "*", default-features = false, features = ["deflate"] }
serde = { version = "1", features = ["derive"] }
serde_json = "1"
symphonia = "0.5"
rayon = "1"
thiserror = "*"
tracing = "0.1"
