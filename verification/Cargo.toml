[package]
name = "cargo_version_sync"
version = "0.1.0"
edition = "2021"
publish = false

[dependencies]
regex = "1"
chrono = "0.4"
difference = "2"
bytecount = "0.6"
serde = { version = "1", features = ["derive"] }
toml = "*"
structopt = "0.3"
colored = "*"
