[package]
name = "bbfs"
version = "0.1.0"
edition = "2021"
publish = false

[dependencies]
anyhow = "1"
argh = "0.1"
daemonize-me = "2"
etcetera = "*"
fuser = "*"
libc = "0.2"
nix = "*"
pct-str = "*"
regex = "1"
serde = { version = "1", features = ["derive"] }
serde_json = "1"
soup = "0.5"
time = { version = "0.3", features = ["serde-well-known", "formatting", "parsing"] }
ureq = "2"
url = "2"
