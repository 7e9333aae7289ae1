[package]
name = "tai_stuff"
version = "0.1.0"
edition = "2021"
publish = false

[dependencies]
nix = { version = "*", features = ["time"] }
once_cell = "1"
time = { version = "0.3", features = ["std"] }
winapi = { version = "0.3", features = ["minwindef", "winerror", "winnt", "winreg"] }
