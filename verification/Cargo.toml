[package]
name = "toppy"
version = "0.1.0"
edition = "2021"
publish = false

[dependencies]
bytes = "1"
clap = { version = "4", features = ["derive"] }
h3 = "*"
h3-datagram = "*"
h3-quinn = { version = "*", features = ["datagram"] }
http = "1"
ipnet = "2"
jsonwebtoken = { version = "9", default-features = false }
libc = "0.2"
quinn = { version = "0.11", default-features = false, features = ["runtime-tokio", "rustls-ring"] }
rcgen = "0.13"
ring = "0.17"
rustls = { version = "0.23", default-features = false, features = ["ring", "std"] }
serde = { version = "1", features = ["derive"] }
serde_json = "1"
tiny_http = "0.12"
tokio = { version = "1", features = ["rt", "rt-multi-thread", "time"] }
toml = "0.8"
