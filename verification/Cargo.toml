[package]
name = "rescue_gadget"
version = "0.1.0"
edition = "2021"
publish = false

[dependencies]
ark-ff = "0.3"
ark-ec = "0.3"
ark-r1cs-std = "0.3"
ark-relations = "0.3"
ark-std = "0.3"
ark-bls12-381 = "0.3"
ark-ed-on-bls12-381 = "0.3"
