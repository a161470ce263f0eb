[package]
name = "dns_config"
version = "0.1.0"
edition = "2021"
publish = false

[dependencies]
anyhow = "1"
dbus = { version = "0.9", features = ["vendored"] }
resolv-conf = "0.7"
tracing = "0.1"
version-compare = "0.2"
which = "7"
