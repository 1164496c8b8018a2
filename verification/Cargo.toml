[package]
name = "matrix_rtc"
version = "0.1.0"
edition = "2021"
publish = false

[dependencies]
async-trait = "=0.1.92"
base64 = "=0.22.1"
log = "=0.4.35"
matrix-sdk = { version = "=0.14.0", default-features = false, features = ["e2e-encryption", "experimental-send-custom-to-device", "rustls-tls"] }
matrix-sdk-base = { version = "=0.14.1", default-features = false, features = ["e2e-encryption"] }
rand = { version = "=0.8.8", default-features = false, features = ["getrandom"] }
rand_core = { version = "=0.6.4", features = ["getrandom"] }
serde = { version = "=1.0.229", features = ["derive"] }
serde_json = "=1.0.154"
thiserror = "=2.0.21"
tokio = { version = "=1.54.1", features = ["sync", "time", "macros", "rt"] }
web-time = "=1.1.0"
