[package]
name = "rs_diffcopy"
version = "1.0.0"
edition = "2021"
publish = false

[dependencies]
blake3 = "1"
chrono = "0.4"
clap = { version = "4", features = ["derive"] }
colored = "2"
encoding_rs = "0.8"
filetime = "0.2"
globset = "0.4"
indicatif = "0.17"
rayon = "1"
rust_xlsxwriter = "*"
serde = { version = "1", features = ["derive"] }
similar = "2"
thiserror = "1"
toml = "0.8"
unicode-width = "0.1"
walkdir = "2"
windows-sys = { version = "0.59", features = ["Win32_System_Console"] }
