[package]
name = "dark-matter"
version = "1.0.0"
edition = "2021"
publish = false

[dependencies]
clap = { version = "4", features = ["derive"] }
gpgme = "0.11"
rusqlite = { version = "*", features = ["bundled"] }
