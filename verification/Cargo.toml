[package]
name = "shard_trace"
version = "0.1.0"
edition = "2021"
publish = false

[dependencies]
num = "=0.4.3"
itertools = "=0.12.1"
p3-matrix = "=0.1.0"
p3-field = "=0.1.0"
p3-air = "=0.1.0"
p3-maybe-rayon = "=0.1.0"
curve25519-dalek = "=4.1.3"
hybrid-array = "=0.4.15"
serde = { version = "=1.0.229", features = ["derive"] }

[dev-dependencies]
k256 = "0.13"
bls12_381 = "0.8"
group = "0.13"
rand = "0.8"
