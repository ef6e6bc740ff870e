[package]
name = "watt"
version = "0.1.0"
edition = "2021"
publish = false

[dependencies]
anyhow = "1"
clap = { version = "4", features = ["derive", "env"] }
clap-verbosity-flag = "*"
ctrlc = "3"
env_logger = "*"
log = "0.4"
nix = { version = "*", features = ["fs"] }
num_cpus = "1"
toml = "*"
yansi = "1"
