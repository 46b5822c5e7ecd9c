[package]
name = "sequence_generator"
version = "0.1.0"
edition = "2021"
publish = false

[dependencies]
dotenv = "0.15"
structopt = "0.3"
time = { version = "0.3", features = ["parsing"] }

[dev-dependencies]
rand = "0.8"
