[package]
name = "smokey"
version = "0.1.0"
edition = "2021"
publish = false

[dependencies]
anyhow = "1"
bimap = "0.6"
bytecount = "0.6"
crossterm = "0.20"
directories-next = "2"
fastrand = "1"
lazy_static = "1"
log = "0.4"
rand = "0.8"
rusqlite = { version = "0.25", features = ["bundled"] }
serde = { version = "1", features = ["derive"] }
serde_derive = "1"
simplelog = "0.12"
structopt = "0.3"
toml = "0.5"
tui = { version = "0.16", default-features = false, features = ["crossterm"] }
