[package]
name = "local_exceptions"
version = "0.1.0"
edition = "2021"
publish = false

[dependencies]
rpki = { version = "=0.15.10", features = ["rtr", "slurm", "serde"] }
arc-swap = "*"
futures = "*"
serde = { version = "*", features = ["derive"] }

[dev-dependencies]
rand = "0.8"
rand_pcg = "0.3"
