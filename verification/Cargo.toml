[package]
name = "btc_cracker"
version = "0.1.0"
edition = "2021"
publish = false

[dependencies]
bdk_wallet = { version = "*", features = ["keys-bip39"] }
num-bigint = "0.4"
num-traits = "0.2"
clap = { version = "4", features = ["derive"] }
console = "*"
indicatif = "*"
