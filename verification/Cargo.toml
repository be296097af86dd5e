[package]
name = "aptos_dkg"
version = "0.1.0"
edition = "2021"
publish = false

[dependencies]
blstrs = "0.7"
ff = "0.13"
group = "0.13"
pairing = "0.23"
merlin = "3"
sha3 = "0.10"
rand = "0.8"
num-bigint = "0.4"
num-integer = "0.1"
