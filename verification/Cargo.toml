[package]
name = "apt-archive"
version = "0.1.0"
edition = "2021"
publish = false

[dependencies]
axum = { version = "=0.7.9", default-features = false, features = ["http1", "json", "tokio"] }
debian-packaging = { version = "=0.18.0", default-features = false }
derive_more = "=0.99.20"
libc = "=0.2.189"
serde = { version = "=1.0.229", features = ["derive"] }
thiserror = "=1.0.69"
tokio = { version = "=1.54.1", features = ["rt-multi-thread", "macros", "net", "sync"] }
toml = "=0.8.23"
utoipa = "=4.2.3"
utoipa-swagger-ui = { version = "=6.0.0", features = ["axum"] }
