[package]
name = "poseidon2_wide"
version = "0.1.0"
edition = "2021"
publish = false

[dependencies]
hashbrown = "=0.14.5"
p3-air = "=0.1.3-succinct"
p3-baby-bear = "=0.1.3-succinct"
p3-field = "=0.1.3-succinct"
p3-matrix = "=0.1.3-succinct"
p3-poseidon2 = "=0.1.3-succinct"
p3-symmetric = "=0.1.3-succinct"
sp1-core = "=1.1.1"
sp1-derive = "=1.1.1"
sp1-primitives = "=1.1.1"
tracing = "=0.1.44"
