[package]
name = "hdf5_scan"
version = "0.1.0"
edition = "2021"
publish = false

[dependencies]
duckdb = { version = "*", features = ["vtab-loadable"] }
duckdb-loadable-macros = "*"
hdf5 = "*"
hdf5-sys = "*"
