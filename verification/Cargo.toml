[package]
name = "playerctl_rust_wrapper"
version = "0.1.0"
edition = "2021"
publish = false

[dependencies]
thiserror = "=1.0.69"
urlencoding = "=2.1.3"
