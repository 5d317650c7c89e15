[package]
name = "transpors"
version = "0.1.0"
edition = "2021"
publish = false

[dependencies]
rayon = "1"
chrono = "0.4"
clap = "3"
dirs = "*"
serde = { version = "1", features = ["derive"] }
serde_yaml = "0.9"
serde_json = "1"
tokio = { version = "1", features = ["rt-multi-thread", "macros", "fs", "io-util", "sync", "time"] }
async-trait = "0.1"
futures = "0.3"
gtfs-structures = "*"
spinners = "*"
reqwest = { version = "0.12", default-features = false, features = ["json"] }
strfmt = "*"
