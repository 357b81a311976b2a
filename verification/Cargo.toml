[package]
name = "skyrust"
version = "0.1.0"
edition = "2021"
publish = false

[dependencies]
cortex-m = "=0.7.10"
cyw43 = "=0.3.0"
cyw43-firmware = { version = "=0.1.0", features = ["wifi"] }
cyw43-pio = "=0.4.0"
defmt-rtt = "=0.4.2"
embassy-executor = { version = "=0.7.0", features = ["arch-std", "executor-thread"] }
embassy-futures = "=0.1.2"
embassy-net = { version = "=0.7.1", features = ["udp", "dhcpv4", "medium-ethernet", "proto-ipv4"] }
embassy-rp = { version = "=0.4.0", features = ["rp235xa", "time-driver", "_test"] }
embassy-sync = "=0.6.2"
embassy-time = "=0.4.0"
embassy-usb = "=0.4.0"
embedded-hal-async = "=1.0.0"
heapless = "=0.8.0"
panic-probe = "=0.3.2"
rand_core = "=0.6.4"
static_cell = "=2.1.1"
