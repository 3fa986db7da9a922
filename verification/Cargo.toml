[package]
name = "fe_monitor"
version = "0.1.0"
edition = "2021"
publish = false

[dependencies]
rand = "0.8"
chrono = "0.4"
log = "0.4"
reqwest = { version = "0.12", default-features = false }
tokio = { version = "1", default-features = false, features = ["macros", "rt-multi-thread", "time"] }
config = "*"
ctrlc = "3"
fern = "*"
notify-rust = "*"
rodio = { version = "*", default-features = false }
attohttpc = { version = "*", default-features = false }
anyhow = "1"
clap = { version = "4", features = ["derive"] }
