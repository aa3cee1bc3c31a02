[package]
name = "org_bridge"
version = "0.1.0"
edition = "2021"
publish = false

[dependencies]
chrono = "0.4"
data-encoding = "2"
mini-moka = "0.10"
openidconnect = { version = "4.0", default-features = false, features = ["reqwest", "rustls-tls"] }
regex = "1"
rocket = { version = "0.5", default-features = false, features = ["json"] }
serde = { version = "1", features = ["derive"] }
serde_json = "1"
url = "2"
