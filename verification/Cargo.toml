[package]
name = "maze_snark"
version = "0.1.0"
edition = "2021"
publish = false

[dependencies]
nova-scotia = "=0.5.0"
nova-snark = "=0.23.0"
num-bigint = "=0.4.8"
pasta_curves = "=0.5.2"
serde = { version = "=1.0.229", features = ["derive"] }
serde_json = "=1.0.151"
