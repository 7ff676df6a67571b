[package]
name = "hardshare"
version = "0.1.0"
edition = "2021"
publish = false

[dependencies]
rerobots = "=0.12.4"
jwt = "=0.11.0"
rand = "=0.8.8"
serde = { version = "=1.0.229", features = ["derive"] }
serde_json = "=1.0.154"
serde_yaml = "=0.9.34"
clap = "=2.34.0"
tokio = { version = "=1.54.1", features = ["full"] }
actix = "=0.13.5"
actix-web = "=4.18.1"
awc = { version = "=3.11.0", features = ["openssl"] }
actix-codec = "=0.5.4"
futures = "=0.3.34"
bytes = "=1.12.1"
openssl = "=0.10.82"
openssl-probe = "=0.1.6"
base64 = "=0.21.7"
image = { version = "=0.24.9", default-features = false, features = ["jpeg"] }
nokhwa = { version = "=0.10.11", features = ["input-native"] }
home = "=0.5.12"
tempfile = "=3.27.0"
serialport = { version = "=4.10.1", default-features = false }
env_logger = "=0.10.2"
log = "=0.4.35"
