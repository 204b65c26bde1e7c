[package]
name = "operations"
version = "0.1.0"
edition = "2021"
publish = false

[dependencies]
anyhow = "=1.0.104"
async-trait = "=0.1.92"
base64 = "=0.23.1"
bs58 = "=0.5.1"
deadpool-diesel = { version = "=0.7.0", features = ["postgres"] }
diesel = { version = "=2.3.14", features = ["postgres", "serde_json"] }
diesel-derive-enum = { version = "=2.1.0", features = ["postgres"] }
envy = "=0.4.2"
lazy_static = "=1.5.1"
log = "=0.4.34"
prometheus = "=0.14.0"
serde = { version = "=1.0.229", features = ["derive"] }
serde_json = "=1.0.151"
serde_repr = "=0.1.21"
thiserror = "=1.0.69"
tokio = { version = "=1.53.2", features = ["rt-multi-thread", "macros", "sync", "time"] }
warp = { version = "=0.4.3", features = ["server"] }
