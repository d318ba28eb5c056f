[package]
name = "rucli"
version = "0.1.0"
edition = "2021"
publish = false

[dependencies]
clap = { version = "4", features = ["derive", "env"] }
memmem = "0.1"
quick-xml = { version = "*", features = ["serialize"] }
serde = { version = "1", features = ["derive"] }
serde_derive = "1"
ssh2 = "0.9"
ssh2-config = "*"
