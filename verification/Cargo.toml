[package]
name = "limbo"
version = "0.1.0"
edition = "2021"
publish = false

[dependencies]
aes = "0.7"
anyhow = "1"
base64 = "0.13"
byteorder = "1"
bytes = "1"
fern = "0.6"
flate2 = "1"
log = { version = "0.4", features = ["serde"] }
num-bigint = "0.4"
serde = { version = "1", features = ["derive"] }
serde_json = "1"
sha1 = "0.10"
thiserror = "1"
tokio = { version = "1", features = ["rt-multi-thread", "net", "io-util", "sync", "time", "macros", "signal"] }
toml = "0.5"
ureq = { version = "2", features = ["json"] }
uuid = { version = "1", features = ["v4", "serde"] }

[dev-dependencies]
cfb8 = "0.7"
