[package]
name = "vane"
version = "0.1.0"
edition = "2021"
publish = false

[dependencies]
anyhow = "=1.0.104"
axum = "=0.8.9"
axum-extra = { version = "=0.10.3", features = ["typed-header"] }
axum-server = { version = "=0.7.3", features = ["tls-rustls-no-provider"] }
base64 = "=0.22.1"
bytes = "=1.12.1"
dotenvy = "=0.15.7"
fancy-log = "=0.1.1"
governor = "=0.10.4"
h3 = "=0.0.8"
h3-quinn = "=0.0.10"
headers = "=0.4.2"
http = "=1.5.0"
hyper = "=1.12.0"
hyper-rustls = { version = "=0.27.10", default-features = false, features = ["http1", "http2", "ring"] }
hyper-util = { version = "=0.1.21", features = ["client-legacy", "http1", "http2", "tokio"] }
lazy-limit = "=1.0.3"
lazy-motd = "=1.0.8"
quinn = { version = "=0.11.12", default-features = false, features = ["runtime-tokio", "rustls-ring"] }
rcgen = "=0.14.10"
reqwest = { version = "=0.12.28", default-features = false, features = ["json", "rustls-tls"] }
rustls = { version = "=0.23.46", default-features = false, features = ["logging", "ring", "std", "tls12"] }
rustls-pemfile = "=2.2.0"
serde = { version = "=1.0.229", features = ["derive"] }
shellexpand = "=3.1.2"
tokio = { version = "=1.54.1", features = ["full"] }
toml = "=0.8.23"
tower = { version = "=0.5.3", features = ["util"] }
webpki-roots = "=1.0.11"
