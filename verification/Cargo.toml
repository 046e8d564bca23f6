[package]
name = "schling_common"
version = "0.1.0"
edition = "2021"
publish = false

[dependencies]
pulldown-cmark = { version = "0.9", default-features = false }
serde = { version = "1", features = ["derive"] }
serde_json = "1"
yew = { version = "0.20", features = ["csr"] }
