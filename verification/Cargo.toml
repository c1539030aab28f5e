[package]
name = "ntag_sdm"
version = "0.1.0"
edition = "2021"
publish = false

[dependencies]
aes = "=0.8.4"
cbc = "=0.1.2"
cmac = "=0.7.2"
hex = "=0.4.3"
ed25519-dalek = "=2.2.0"
log = "0.4"
serde = { version = "1", features = ["derive"] }
serde_json = "1"
axum = "0.8"
axum_session = "=0.22.0"
diesel = { version = "2", features = ["sqlite"] }
dotenvy = "0.15"
simple_logger = "4"
tokio = { version = "1", features = ["macros", "net", "rt-multi-thread"] }
tower = { version = "0.5", features = ["util"] }
tower-http = { version = "0.6", features = ["fs"] }
