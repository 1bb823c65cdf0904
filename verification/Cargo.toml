[package]
name = "coursework"
version = "0.1.0"
edition = "2021"
publish = false

[dependencies]
rand = "=0.8.8"
rand_chacha = "=0.3.1"
shlex = "=1.3.0"
serde = { version = "=1.0.229", features = ["derive"] }
serde_json = "=1.0.154"
ron = "=0.8.1"
csv = "=1.4.0"
clap = { version = "=4.6.7", features = ["derive"] }
rayon = "=1.12.0"
home = "=0.5.12"
unsvg = "=1.1.2"
libssh2-sys = "=0.3.3"
