[package]
name = "eldiron"
version = "0.1.0"
edition = "2021"
publish = false

[dependencies]
pathfinding = "*"
uuid = { version = "*", features = ["v4", "serde"] }
regex = "*"
serde = { version = "*", features = ["derive"] }
serde_json = "*"
rustc-hash = "*"
crossbeam-channel = "*"
rand = "*"
evalexpr = "*"
earcutr = "*"
num_cpus = "*"
rayon = "*"
log = "*"
lazy_static = "*"
png = "*"
ref_thread_local = "*"
