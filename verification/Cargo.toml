[package]
name = "wh_core"
version = "0.1.0"
edition = "2021"
publish = false

[dependencies]
lru = "0.6"
parking_lot = "*"
once_cell = "*"
log = "*"
serenity = "*"
sqlx = { version = "*", default-features = false, features = ["postgres", "runtime-tokio"] }
tokio = { version = "*", features = ["full"] }
