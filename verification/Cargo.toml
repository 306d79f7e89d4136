[package]
name = "sonic_oxide"
version = "0.1.0"
edition = "2021"
publish = false

[dependencies]
accesskit = "0.24"
libc = "=0.2.191"
lsp-types = "0.97"
rosc = "=0.11.4"
rustfft = "=6.4.1"
thiserror = "=1.0.69"
windows-sys = { version = "*", features = ["Win32_Foundation", "Win32_Security", "Win32_System_JobObjects"] }
