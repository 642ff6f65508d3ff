[package]
name = "crud_bench"
version = "0.1.0"
edition = "2021"
publish = false

[dependencies]
anyhow = "1"
bytemuck = { version = "1", features = ["extern_crate_alloc"] }
clap = { version = "4", features = ["derive"] }
csv = "1"
futures = "0.3"
hdrhistogram = { version = "7", default-features = false }
indicatif = "*"
log = "0.4"
rand = "0.10"
rust_decimal = "1"
serde = { version = "1", features = ["derive"] }
serde_json = "1"
tokio = { version = "1", features = ["rt", "rt-multi-thread", "time", "sync", "macros"] }
