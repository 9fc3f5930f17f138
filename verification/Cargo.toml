[package]
name = "libloc"
version = "0.1.0"
edition = "2021"
publish = false

[dependencies]
chrono = { version = "=0.4.45", default-features = false, features = ["std"] }
clap = { version = "=4.6.7", features = ["derive"] }
ipnet = "=2.12.2"
memmap2 = { version = "=0.9.12", features = ["stable_deref_trait"] }
yoke = { version = "=0.7.5", features = ["derive"] }
zerocopy = "=0.7.35"
