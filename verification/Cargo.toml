[package]
name = "teo"
version = "0.1.0"
edition = "2021"
publish = false

[dependencies]
async-trait = "0.1"
bson = "2"
chrono = "0.4"
maplit = "1"
regex = "1"
serde_json = "1"
uuid = { version = "1", features = ["v4"] }
