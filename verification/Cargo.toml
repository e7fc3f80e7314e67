[package]
name = "co2mon"
version = "0.1.0"
edition = "2021"
publish = false

[dependencies]
chrono = "=0.4.45"
hidapi = { version = "=2.6.7", default-features = false, features = ["linux-native-basic-udev"] }
