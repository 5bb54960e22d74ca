[package]
name = "ball_game"
version = "0.1.0"
edition = "2021"
publish = false

[dependencies]
argh = "=0.1.19"
bincode = "=1.3.3"
byteorder = "=1.5.0"
bytes = "=0.5.6"
flume = "=0.10.14"
futures-util = { version = "=0.3.34", features = ["sink"] }
log = "=0.4.34"
serde = { version = "=1.0.229", features = ["derive"] }
thiserror = "=1.0.69"
tokio = { version = "=0.2.25", features = ["full"] }
tokio-util = { version = "=0.3.1", features = ["codec"] }
