[package]
name = "edgedb_protocol"
version = "0.1.0"
edition = "2021"
publish = false

[dependencies]
bytes = "=1.12.1"
edgedb-errors = "=0.4.2"
