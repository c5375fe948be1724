[package]
name = "rollback"
version = "0.1.0"
edition = "2021"
publish = false

[dependencies]
anyhow = "1"
clap = { version = "4", features = ["derive"] }
itertools = "*"
proc-macro2 = "1"
quote = "1"
sqlx = { version = "0.7", default-features = false, features = ["postgres", "runtime-tokio"] }
syn = { version = "2", features = ["full"] }
tokio = { version = "1", features = ["rt"] }
url = "2"
