[package]
name = "zkp_auth"
version = "0.1.0"
edition = "2021"
publish = false

[dependencies]
hex = "0.4"
num-bigint = { version = "0.4", features = ["rand"] }
rand = "0.8"
uuid = { version = "1", features = ["v4"] }
k256 = "0.13"
prost = "0.12"
tokio = { version = "1", features = ["macros", "rt-multi-thread"] }
tonic = "0.11"
