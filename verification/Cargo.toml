[package]
name = "vanity_miner"
version = "0.1.0"
edition = "2021"
publish = false

[dependencies]
rayon = "*"
parking_lot = "*"
indicatif = "*"
sequoia-openpgp = { version = "*", default-features = false, features = ["crypto-rust", "allow-experimental-crypto", "allow-variable-time-crypto"] }
