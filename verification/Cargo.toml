[package]
name = "step_sequencer"
version = "0.1.0"
edition = "2021"
publish = false

[dependencies]
chrono = "0.4"
crossbeam-channel = "0.5"
hound = "3.5"
rodio = { version = "0.17", default-features = false, features = ["wav"] }
