[package]
name = "porcelain"
version = "0.1.0"
edition = "2021"
publish = false

[dependencies]
git2 = { version = "=0.21.0", default-features = false }
regex = "=1.13.1"
strip-ansi-escapes = "=0.2.1"
clap = { version = "=4.6.7", features = ["derive"] }
clap_complete = "=4.6.11"
colored = "=3.1.1"
minus = { version = "=5.8.0", features = ["static_output", "dynamic_output"] }
inquire = "=0.9.4"
skim = { version = "*", default-features = false }
http = "=1.5.0"
ssh2-config = "=0.9.0"
tempfile = "=3.27.0"
chrono = "=0.4.45"
which = "=8.0.6"
