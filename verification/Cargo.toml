[package]
name = "cf-tunnel"
version = "0.1.0"
edition = "2021"
publish = false

[dependencies]
async-compat = "0.2"
async-trait = "0.1"
base64 = "0.22"
bytes = "1"
capnp = "0.19"
capnp-futures = "0.19"
capnp-rpc = "0.19"
clap = { version = "4", features = ["derive"] }
cloudflare = { version = "0.12", default-features = false, features = ["rustls-tls"] }
futures = "0.3"
h2 = "0.4"
hickory-resolver = "0.24"
http = "1"
http-body-util = "0.1"
hyper = { version = "1", features = ["client", "server", "http1", "http2"] }
hyper-util = { version = "0.1", features = ["tokio"] }
pin-project = "1"
quinn = "0.10"
rand = "0.8"
reqwest = { version = "0.12", default-features = false, features = ["json", "rustls-tls"] }
rustls = "0.21"
rustls-native-certs = "0.7"
rustls-pemfile = "2"
serde = { version = "1", features = ["derive"] }
serde_json = "1"
thiserror = "1"
tokio = { version = "1", features = ["full"] }
tokio-rustls = "0.26"
tokio-util = { version = "0.7", features = ["io", "compat"] }
uuid = { version = "1", features = ["v4"] }
