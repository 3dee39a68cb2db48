[package]
name = "reposeiri"
version = "0.1.0"
edition = "2021"
publish = false

[dependencies]
pulldown-cmark = { version = "=0.13.6", default-features = false }
serde = { version = "=1.0.229", features = ["derive"] }
serde_json = "=1.0.154"
toml = "=0.8.23"
gix = { version = "=0.90.0", default-features = false, features = ["sha1"] }

[dev-dependencies]
tempfile = "=3.27.0"
