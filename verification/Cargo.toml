[package]
name = "lws_sniffer"
version = "0.1.0"
edition = "2021"
publish = false

[dependencies]
chrono = "*"
pcap = "*"
local-ip-address = "*"
