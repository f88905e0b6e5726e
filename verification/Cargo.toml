[package]
name = "puzzle_box"
version = "0.1.0"
edition = "2021"
publish = false

[dependencies]
heapless = "=0.8.0"
cortex-m = "=0.7.10"
cortex-m-rt = "=0.7.7"
embedded-hal = "=0.2.7"
rp-pico = "=0.9.0"
