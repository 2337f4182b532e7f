[package]
name = "hidcli"
version = "0.1.0"
edition = "2021"
publish = false

[dependencies]
anyhow = "1"
clap = { version = "4", features = ["derive"] }
elf = "0.7"
hidapi = { version = "2", default-features = false, features = ["linux-native-basic-udev"] }
indicatif = "0.17"
thiserror = "1"
