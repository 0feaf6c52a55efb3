[package]
name = "nfsv4_exporter"
version = "0.1.0"
edition = "2021"
publish = false

[dependencies]
cgroups-rs = "=0.5.1"
clap = "=4.6.7"
lazy_static = "=1.5.1"
nix = { version = "=0.31.3", features = ["feature"] }
prometheus = "=0.14.0"
semver = "=1.0.28"
tokio = { version = "=1.53.2", features = ["macros", "rt-multi-thread"] }
warp = { version = "=0.4.3", features = ["server"] }
