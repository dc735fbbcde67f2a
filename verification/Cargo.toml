[package]
name = "almond"
version = "0.1.0"
edition = "2021"
publish = false

[dependencies]
hashbrown = "=0.15.5"
allocator-api2 = "=0.2.21"
libafl_bolts = "=0.15.4"
libafl = "=0.15.4"
libafl_cc = "=0.15.4"
serde = { version = "=1.0.229", features = ["derive"] }
serde_json = "=1.0.154"
anyhow = "=1.0.104"
libc = "=0.2.191"
rustix = { version = "=1.1.6", features = ["mm", "fs"] }
crossbeam = "=0.8.5"
log = "=0.4.35"
