[package]
name = "toolbox"
version = "0.1.0"
edition = "2021"
publish = false

[dependencies]
chrono = "*"
lettre = { version = "*", default-features = false, features = ["smtp-transport", "builder", "rustls-tls"] }
notify-rust = { version = "*", default-features = false, features = ["z"] }
