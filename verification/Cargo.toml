[package]
name = "granular_synth"
version = "0.1.0"
edition = "2021"
publish = false

[dependencies]
cpal = "0.15"
crossbeam-channel = "0.5"
dasp_interpolate = { version = "0.11", features = ["linear"] }
dasp_signal = "0.11"
hound = "3"
rand = "0.8"
