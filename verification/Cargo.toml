[package]
name = "tyt"
version = "0.1.0"
edition = "2021"
publish = false

[dependencies]
alphanumeric-sort = "1"
chrono = "0.4"
fancy-regex = "0.11"
serde = { version = "1", features = ["derive"] }
serde_json = "1"
serde_yaml = "0.9"
quick-xml = { version = "0.31", features = ["serialize"] }
reqwest = { version = "0.11", default-features = false, features = ["blocking", "json", "rustls-tls"] }
threadpool = "1.8"
termion = "1"
tui = { version = "0.19", default-features = false, features = ["termion"] }
arboard = { version = "3", default-features = false }
dirs-next = "2"
log = "0.4"
simplelog = "0.12"

[dev-dependencies]
rand = "0.8"
