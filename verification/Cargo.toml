[package]
name = "burst"
version = "0.1.0"
edition = "2021"
publish = false

[dependencies]
failure = "0.1"
rand = "0.8"
rayon = "1"
rusoto_core = "0.48"
rusoto_credential = "0.48"
rusoto_ec2 = "0.48"
scopeguard = "1"
slog = "2"
slog-term = "2"
ssh2 = "0.9"
tempfile = "3"
tokio = { version = "1", features = ["full"] }
