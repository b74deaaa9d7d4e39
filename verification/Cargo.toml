[package]
name = "ulanzi_pomodoro"
version = "0.1.0"
edition = "2021"
publish = false

[dependencies]
embedded-storage = "=0.3.2"
embedded-graphics = "=0.8.2"
esp-hal = { version = "=1.0.0", features = ["esp32", "unstable"] }
esp-radio = { version = "=0.16.0", features = ["esp32", "wifi"] }
esp-rtos = { version = "=0.1.1", features = ["esp32"] }
esp-alloc = "=0.9.0"
esp-println = { version = "=0.16.1", features = ["esp32"] }
esp-storage = { version = "=0.8.1", features = ["esp32"] }
esp-bootloader-esp-idf = { version = "=0.3.0", features = ["esp32"] }
smoltcp = { version = "=0.12.0", default-features = false, features = ["medium-ethernet", "proto-ipv4", "proto-dhcpv4", "proto-dns", "socket-udp", "socket-dns", "socket-dhcpv4"] }
