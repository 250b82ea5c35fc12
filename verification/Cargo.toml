[package]
name = "dump1090_rs"
version = "0.1.0"
edition = "2021"
publish = false

[dependencies]
hex = "*"
clap = { version = "*", features = ["derive"] }
dotenv = "*"
env_logger = "*"
futures = "*"
log = "*"
num-complex = "*"
serde = { version = "*", features = ["derive"] }
soapysdr = "*"
tiny-tokio-actor = "*"
tokio = { version = "*", features = ["full"] }
toml = "*"
warp = "*"
