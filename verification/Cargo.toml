[package]
name = "lookup_gates"
version = "0.1.0"
edition = "2021"
publish = false

[dependencies]
halo2-axiom = "=0.5.3"
ff = "=0.13.1"
rand_core = "=0.6.4"
rand = "=0.8.8"
ark-std = { version = "=0.4.0", features = ["print-trace"] }
