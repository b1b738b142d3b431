[package]
name = "idevice"
version = "0.1.0"
edition = "2021"
publish = false

[dependencies]
async_zip = { version = "=0.0.17", default-features = false, features = ["tokio"] }
base64 = "=0.22.1"
chacha20poly1305 = "=0.10.1"
chrono = { version = "0.4", default-features = false, features = ["alloc", "serde"] }
der = "=0.7.10"
ed25519-dalek = "=2.2.0"
futures = "=0.3.34"
hkdf = "=0.12.4"
json = "=0.12.4"
libc = "0.2"
plist = "=1.10.3"
rand = "0.8"
reqwest = { version = "0.12", default-features = false, features = ["rustls-tls"] }
serde = { version = "=1.0.229", features = ["derive"] }
serde_json = "=1.0.154"
sha1 = "0.10"
sha2 = "=0.10.9"
thiserror = "=2.0.21"
tokio = { version = "=1.54.1", features = ["io-util", "net", "rt", "macros", "time", "sync", "fs"] }
uuid = { version = "=1.29.0", features = ["v4"] }
x25519-dalek = { version = "=2.0.1", features = ["static_secrets", "getrandom"] }
