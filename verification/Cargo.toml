[package]
name = "chrono_machines"
version = "0.1.0"
edition = "2021"
publish = false

[dependencies]
rand = { version = "0.9", default-features = false, features = ["std", "std_rng", "os_rng", "small_rng"] }
magnus = "*"
