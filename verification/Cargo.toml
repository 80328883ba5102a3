[package]
name = "flox_installables"
version = "0.1.0"
edition = "2021"
publish = false

[dependencies]
shell-escape = "*"
bpaf = { version = "*", features = ["derive"] }
crossterm = "*"
inquire = "*"
tokio = { version = "*", features = ["rt"] }
