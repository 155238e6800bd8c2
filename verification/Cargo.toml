[package]
name = "dd"
version = "0.1.0"
edition = "2021"
publish = false

[dependencies]
rand = "*"
sysinfo = "*"
crossbeam = "*"
clap = { version = "*", features = ["derive"] }
indicatif = "*"
block-devs = "*"
winapi = { version = "*", features = ["fileapi", "handleapi", "ioapiset", "winioctl", "winnt"] }
