[package]
name = "qsv"
version = "0.1.0"
edition = "2021"
publish = false

[dependencies]
clap = { version = "3", features = ["derive"] }
csv = "1"
flate2 = "1"
format-sql-query = "*"
log = "0.4"
md5 = "0.7"
rusqlite = { version = "0.25", features = ["bundled", "functions"] }
simple_logger = "1"
sqlparser = "0.9"
streaming-stats = "0.2"
tree_magic = "0.2"
uuid = { version = "0.8", features = ["v4"] }
