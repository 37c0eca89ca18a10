[package]
name = "shellfish"
version = "0.1.0"
edition = "2021"
publish = false

[dependencies]
indexmap = "2"
home = "0.5"
yansi = "0.5"
serde = { version = "1", features = ["derive"] }
serde_json = "1"
thiserror = "1"
async-trait = "0.1"
clap = { version = "4", features = ["derive"] }
rustyline = "14"
tokio = { version = "1", features = ["fs", "io-util", "rt", "macros"] }
