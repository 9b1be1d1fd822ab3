[package]
name = "room_rtc"
version = "0.1.0"
edition = "2021"
publish = false

[dependencies]
audiopus = "=0.2.0"
bytes = "=1.12.1"
chrono = "=0.4.45"
cpal = "=0.18.2"
if-addrs = "=0.15.0"
opencv = "=0.101.1"
openh264 = "=0.9.9"
rustls = { version = "=0.23.46", default-features = false, features = ["ring", "std", "tls12", "logging"] }
sctp-proto = "=0.10.8"
yuv = "=0.8.20"
