[package]
name = "rdfwalk"
version = "0.1.0"
edition = "2021"
publish = false

[dependencies]
oxrdf = "=0.2.4"
sparesults = "=0.2.5"
anyhow = "=1.0.104"
arboard = "=3.7.0"
clap = { version = "=4.6.7", features = ["derive"] }
crossterm = "=0.28.1"
ratatui = "=0.29.0"
reqwest = { version = "=0.12.28", default-features = false, features = ["blocking", "rustls-tls"] }
confy = "0.6"
serde = { version = "1", features = ["derive"] }
