[package]
name = "mail_preview"
version = "0.1.0"
edition = "2021"
publish = false

[dependencies]
chrono = "0.4"
imap = "2"
mailparse = "*"
native-tls = "0.2"
serde = { version = "1", features = ["derive"] }
tera = { version = "1", default-features = false }
thiserror = "1"
tokio = { version = "1", features = ["macros", "rt-multi-thread"] }
toml = "*"
warp = { version = "0.3", default-features = false }
