[package]
name = "rsmq"
version = "0.1.0"
edition = "2021"
publish = false

[dependencies]
radix = "=0.6.0"
rand = "=0.7.3"
redis = "=0.15.1"
bb8 = "=0.4.2"
bb8-redis = "=0.4.0"
failure = "=0.1.8"
