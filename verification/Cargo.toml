[package]
name = "termchat"
version = "0.1.0"
edition = "2021"
publish = false

[dependencies]
unicode-width = "=0.1.14"
shellwords = "=1.1.0"
chrono = "=0.4.45"
message-io = "=0.14.8"
serde = { version = "=1.0.229", features = ["derive"] }
crossterm = "=0.19.0"
tui = { version = "=0.15.0", default-features = false, features = ["crossterm"] }
whoami = "=1.6.1"
clap = "=2.34.0"
toml = "=0.5.11"
dirs-next = "=2.0.0"
resize = "=0.5.5"
rgb = "=0.8.53"
v4l = "=0.12.1"
wavy = "=0.9.1"
fon = "=0.5.0"
futures = "=0.3.34"
byteorder = "=1.5.0"

[dev-dependencies]
bincode = "=1.3.3"
