[package]
name = "cgroups"
version = "0.1.0"
edition = "2021"
publish = false

[dependencies]
anyhow = "1"
clap = { version = "*", features = ["derive"] }
log = "0.4"
nix = { version = "*", features = ["fs", "process", "user"] }
oci-spec = "*"
systemd = "*"
