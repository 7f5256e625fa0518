[package]
name = "module_live_telemetry"
version = "0.1.0"
edition = "2021"
publish = false

[dependencies]
crc32fast = "1"
memmap2 = "0.9"
crossbeam-channel = "0.5"
ctrlc = "3"
