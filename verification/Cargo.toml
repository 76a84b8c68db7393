[package]
name = "gmf"
version = "0.1.0"
edition = "2021"
publish = false

[dependencies]
aes-gcm = "=0.10.3"
anyhow = "1"
axum = { version = "0.8", default-features = false, features = ["http1", "json", "tokio"] }
base64 = "=0.22.1"
bitvec = "=1.1.1"
clap = { version = "4", default-features = false, features = ["std", "help", "usage", "derive"] }
chrono = { version = "0.4", default-features = false, features = ["clock"] }
dirs = "6"
dunce = "1"
futures = "0.3"
hex = "=0.4.3"
httpdate = "=1.0.3"
indicatif = { version = "0.17", default-features = false }
log = "0.4"
openssl = { version = "=0.10.82", features = ["vendored"] }
reqwest = { version = "0.12", default-features = false, features = ["rustls-tls", "multipart", "json"] }
russh = { version = "=0.54.5", default-features = false, features = ["ring", "rsa"] }
russh-sftp = "=2.4.0"
rust-s3 = { version = "=0.36.0", default-features = false, features = ["tokio-rustls-tls"] }
serde = { version = "1", features = ["derive"] }
serde_json = "1"
sha2 = "=0.10.9"
shellexpand = "=3.1.2"
shlex = "=1.3.0"
tempfile = "3"
tokio = { version = "1", features = ["full"] }
toml = "0.8"
tracing = { version = "0.1", default-features = false, features = ["std"] }
tracing-subscriber = { version = "0.3", default-features = false, features = ["fmt"] }
xxhash-rust = { version = "=0.8.19", features = ["xxh3"] }
