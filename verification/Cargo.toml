[package]
name = "filter_jit"
version = "0.1.0"
edition = "2021"
publish = false

[dependencies]
llvm-sys = { version = "=140.1.3", features = ["force-dynamic"] }
libc = "=0.2.190"
serde = { version = "=1.0.229", features = ["derive"] }
serde_json = "=1.0.151"
toml = "=0.8.23"
