[package]
name = "communicator"
version = "0.1.0"
edition = "2021"
publish = false

[dependencies]
heapless = "=0.7.17"
numtoa = "=0.2.4"
cortex-m = "=0.7.7"
cortex-m-rt = "=0.7.7"
defmt = "=0.3.101"
defmt-rtt = "=0.4.2"
embedded-graphics = "=0.7.1"
embedded-hal = "=0.2.7"
embedded-hal-compat = "=0.6.2"
fugit = "=0.3.9"
panic-probe = { version = "=0.3.2", features = ["print-defmt"] }
radio = { version = "=0.11.1", default-features = false }
radio-sx127x = { version = "=0.14.0", default-features = false }
rp-pico = "=0.7.0"
ssd1681 = "=0.1.0"
