[package]
name = "smith-rs"
version = "0.1.0"
edition = "2021"
publish = false

[dependencies]
async-trait = "*"
chrono = "*"
clap = { version = "*", features = ["derive"] }
daemonize = "*"
lettre = { version = "*", default-features = false, features = ["builder", "smtp-transport", "rustls-tls"] }
libc = "*"
nix = { version = "*", features = ["fs"] }
rsntp = "*"
serde = { version = "*", features = ["derive"] }
serde_yaml = "*"
sysinfo = "*"
tokio = { version = "*", features = ["rt-multi-thread", "macros", "sync", "time"] }
