[package]
name = "moko_mkl62ba_at_commands"
version = "0.1.0"
edition = "2021"
publish = false

[dependencies]
atat = "*"
atat_derive = "*"
serde_at = "*"
heapless = "*"
heapless-bytes = "*"
embedded-io = "*"
embedded-io-async = "*"
defmt = "*"
