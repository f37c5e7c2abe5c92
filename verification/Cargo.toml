[package]
name = "brc20_swap"
version = "0.1.0"
edition = "2021"
publish = false

[dependencies]
bigdecimal = "=0.4.11"
bitcoin = "=0.32.102"
byteorder = "=1.5.0"
hex = "=0.4.3"
itertools = "=0.15.0"
serde = { version = "=1.0.229", features = ["derive"] }
redb = "=4.4.0"
anyhow = "=1.0.104"
log = "=0.4.35"
env_logger = "=0.11.11"
