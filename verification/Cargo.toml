[package]
name = "tunnix"
version = "0.1.0"
edition = "2021"
publish = false

[dependencies]
anyhow = "=1.0.104"
arc-swap = "=1.9.3"
argon2 = "=0.5.3"
base64ct = { version = "=1.8.3", features = ["alloc"] }
bincode = "=1.3.3"
bytes = "=1.12.1"
chacha20poly1305 = "=0.10.1"
clap = { version = "=4.6.7", features = ["derive", "env"] }
futures = "=0.3.34"
http-body-util = "=0.1.5"
hyper = { version = "=1.12.0", features = ["http1", "server"] }
hyper-util = { version = "=0.1.21", features = ["tokio"] }
libc = "=0.2.191"
nix = { version = "=0.29.0", features = ["term"] }
portable-pty = "=0.8.1"
rand = "=0.8.8"
reqwest = { version = "=0.12.28", default-features = false, features = ["rustls-tls", "stream"] }
rustls = { version = "=0.23.46", default-features = false, features = ["ring", "std"] }
serde = { version = "=1.0.229", features = ["derive"] }
shlex = "=1.3.0"
tar = "=0.4.46"
tokio = { version = "=1.54.1", features = ["full"] }
toml = "=0.8.23"
tracing = "=0.1.44"
tracing-subscriber = "=0.3.23"
zstd = "=0.13.4"
