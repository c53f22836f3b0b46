[package]
name = "liquid_cooler"
version = "0.1.0"
edition = "2021"
publish = false

[dependencies]
clap = { version = "=4.6.7", features = ["derive"] }
hidapi = { version = "=2.6.7", default-features = false, features = ["linux-native-basic-udev"] }
rand = "=0.8.8"
serde_json = "=1.0.154"

[dev-dependencies]
regex = "=1.13.1"
