[package]
name = "arb_revm"
version = "0.1.0"
edition = "2021"
publish = false

[dependencies]
alloc-stdlib = "=0.2.4"
alloy-consensus = { version = "=2.5.0", default-features = false, features = ["std", "k256"] }
alloy-eips = { version = "=2.5.0", default-features = false, features = ["std"] }
brotli = { version = "=8.0.4", default-features = false }
eyre = "=0.6.14"
revm = { version = "=42.0.1", default-features = false, features = ["std"] }
serde = { version = "=1.0.229", features = ["derive"] }
