[package]
name = "root_io"
version = "0.1.0"
edition = "2021"
publish = false

[dependencies]
nom = { version = "=5.1.3", default-features = false, features = ["std"] }
flate2 = "=1.1.10"
lz4-compress = "=0.1.1"
futures = "=0.3.34"
ndarray = "=0.15.6"
gnuplot = "=0.0.46"
