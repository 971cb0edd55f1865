[package]
name = "agency"
version = "0.1.0"
edition = "2021"
publish = false

[dependencies]
owo-colors = "=4.4.0"
anyhow = "=1.0.104"
regex = "=1.13.1"
serde = { version = "=1.0.229", features = ["derive"] }
serde_yaml = "=0.9.34"
crossterm = "=0.28.1"
ratatui = "=0.29.0"
crossbeam-channel = "=0.5.17"
parking_lot = "=0.12.5"
anstream = "=0.6.21"
anstyle = "=1.0.14"
anstyle-parse = "=0.2.7"
libc = "=0.2.191"
inquire = "=0.9.4"
shell-words = "=1.1.1"
xdg = "=3.0.0"
reflink-copy = "=0.1.32"
termwiz = { version = "=0.23.3", default-features = false }
gix = { version = "=0.90.0", default-features = false, features = ["sha1"] }
