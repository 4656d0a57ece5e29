[package]
name = "mymha_client"
version = "0.1.0"
edition = "2021"
publish = false

[dependencies]
hex = "0.4"
byteorder = "1"
bigdecimal = "0.4"
serde = { version = "1", features = ["derive"] }
serde_json = "1"
mysql_common = "0.32"
chrono = "0.4"
log = "0.4"
log4rs = "1"
structopt = "0.3"
