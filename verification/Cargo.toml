[package]
name = "script_dsl"
version = "0.1.0"
edition = "2021"
publish = false

[dependencies]
bitcoin = "=0.32.102"
fenwick-tree = "=0.1.0"
sha2 = "=0.11.0"

[dev-dependencies]
rand = "=0.10.3"
rand_chacha = "=0.10.0"
