[package]
name = "up"
version = "1.0.3"
edition = "2021"
publish = false

[dependencies]
chrono = "0.4"
clap = "4"
ctrlc = "3"
dirs = "5"
flexi_logger = "0.27"
indicatif = "0.17"
log = "0.4"
owo-colors = "3"
ron = "0.8"
serde = { version = "1", features = ["derive"] }
sysinfo = "0.29"
