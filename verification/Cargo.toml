[package]
name = "usenet-dl"
version = "0.1.0"
edition = "2021"
publish = false

[dependencies]
md5 = "=0.7.0"
which = "=6.0.3"
tokio = { version = "=1.54.1", features = ["full"] }
async-trait = "=0.1.92"
notify = "=6.1.1"
sevenz-rust = { version = "=0.6.1", features = ["aes256"] }
unrar = "=0.5.8"
zip = { version = "=0.6.6", default-features = false, features = ["deflate"] }
serde = { version = "=1.0.229", features = ["derive"] }
serde_json = "=1.0.154"
thiserror = "=1.0.69"
utoipa = "=4.2.3"
tracing = "=0.1.44"

[dev-dependencies]
tempfile = "=3.27.0"
