[package]
name = "borrowbot"
version = "0.1.0"
edition = "2021"
publish = false

[dependencies]
chrono = "=0.4.45"
serde = { version = "1", features = ["derive"] }
tokio = { version = "1", features = ["rt-multi-thread", "macros", "time", "sync"] }
tokio-postgres = "0.7"
twitch-irc = { version = "*", default-features = false, features = ["transport-tcp-rustls-webpki-roots"] }
reqwest = { version = "*", default-features = false, features = ["json", "rustls-tls"] }
