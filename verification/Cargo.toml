[package]
name = "led_matrix"
version = "0.1.0"
edition = "2021"
publish = false

[dependencies]
az = "=1.3.0"
clap = { version = "=4.6.7", features = ["derive"] }
cyw43 = "*"
cyw43-pio = "*"
defmt = "*"
defmt-rtt = "*"
embassy-executor = "*"
embassy-futures = "=0.1.2"
embassy-net = { version = "=0.9.1", features = ["tcp", "proto-ipv4", "medium-ethernet", "dhcpv4"] }
embassy-rp = { version = "*", features = ["rp2040"] }
embassy-sync = "=0.8.0"
embassy-time = "=0.5.1"
fixed = "=1.31.0"
glam = "=0.34.1"
image = { version = "=0.25.10", default-features = false, features = ["gif", "png"] }
libm = "=0.2.16"
panic-probe = "*"
rand = { version = "=0.8.8", default-features = false, features = ["small_rng"] }
smart-leds = "=0.4.0"
static_cell = "*"

[dev-dependencies]
ciborium = "=0.2.2"
minicbor-serde = { version = "=0.7.2", features = ["std"] }
serde = "=1.0.229"
