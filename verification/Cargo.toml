[package]
name = "domain"
version = "0.1.0"
edition = "2021"
publish = false

[dependencies]
base64 = "=0.22.1"
rand = "=0.9.5"
subtle = "=2.6.1"
blake3 = "=1.8.7"
jiff = { version = "=0.2.39", default-features = false, features = ["std", "tzdb-bundle-always"] }
image = { version = "=0.25.10", default-features = false, features = ["jpeg", "png", "gif", "webp", "bmp", "tiff"] }
fast_image_resize = { version = "=5.5.0", features = ["image"] }
webp = "=0.3.1"
tokio = { version = "=1.54.1", features = ["full"] }
sqlx = { version = "=0.8.6", default-features = false, features = ["sqlite", "runtime-tokio", "migrate"] }
axum = { version = "=0.8.9", features = ["multipart"] }
axum-extra = { version = "=0.10.3", features = ["cookie"] }
askama = "=0.14.0"
serde = { version = "=1.0.229", features = ["derive"] }
tower-http = { version = "=0.6.11", features = ["fs", "set-header", "trace"] }
tracing = "=0.1.44"
tracing-subscriber = { version = "=0.3.23", features = ["env-filter"] }
anyhow = "=1.0.104"
dotenvy = "=0.15.7"
thiserror = "=2.0.21"
time = "=0.3.55"
libc = "=0.2.191"
