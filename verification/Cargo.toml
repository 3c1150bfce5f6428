[package]
name = "mmail-core"
version = "0.1.0"
edition = "2021"
publish = false

[dependencies]
mail-parser = "0.11"
rusqlite = { version = "0.37", features = ["bundled"] }
rustls = { version = "0.23", default-features = false, features = ["ring", "std", "tls12", "logging"] }
rustls-platform-verifier = "0.6"
webpki-roots = "1.0"
cxx-qt = "0.8"
cxx-qt-lib = "0.8"
